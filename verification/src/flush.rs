//! The last flush before a requested stop: whatever is still buffered is
//! shipped, in a bounded number of batches.

use vstd::prelude::*;

use crate::logs::{
    flush_step, ships, LogBuffer, LogLineSample, DEFAULT_LOG_BATCH_CAP, DEFAULT_LOG_BUFFER_CAP,
};
use crate::metrics::{
    batch_to_message_at, reports, MetricsBuffer, ToolCallSample, DEFAULT_BATCH_CAP,
    DEFAULT_BUFFER_CAP,
};
use crate::proto::{AgentKind, AgentMessage};
use crate::ring::RingView;
use crate::time::UtcTime;

verus! {

/// How many batches of each kind a shutdown ships before it gives up. A full
/// buffer of the default size fits; the bound keeps a producer that goes on
/// writing from holding the shutdown open.
pub const MAX_SHUTDOWN_FLUSH_BATCHES: usize = 16;

/// How far the flush has come.
#[derive(Clone, Copy, Debug, PartialEq, Eq, Structural)]
pub enum FlushPhase {
    /// Metrics are shipped, and so many batches may still be tried.
    Metrics { left: usize },
    /// Log lines are shipped, and so many batches may still be tried.
    Logs { left: usize },
    /// Nothing is left to do.
    Done,
}

/// One shipped batch.
pub enum Parcel {
    Metrics { samples: Seq<ToolCallSample>, dropped: u64, seq: u64 },
    Logs { lines: Seq<LogLineSample>, dropped: u64, seq: u64 },
}

impl Parcel {
    /// `m` carries the batch, stamped `now`.
    pub open spec fn carried_by(self, m: AgentMessage, now: UtcTime) -> bool {
        match self {
            Parcel::Metrics { samples, dropped, seq } => reports(m, samples, dropped, seq, now),
            Parcel::Logs { lines, dropped, seq } => ships(m, lines, dropped, seq, now),
        }
    }
}

/// The flush and the buffers that it empties.
pub struct FlushView {
    pub phase: FlushPhase,
    pub metrics: RingView<ToolCallSample>,
    pub logs: RingView<LogLineSample>,
}

/// A drain of the ring would yield neither entries nor a dropped count.
pub open spec fn nothing_owed<T>(r: RingView<T>) -> bool {
    r.batch().len() == 0 && r.dropped == 0
}

impl FlushView {
    /// The next batch of log lines, and what comes after it.
    pub open spec fn next_logs(self, left: usize) -> (FlushView, Option<Parcel>) {
        let done = FlushView { phase: FlushPhase::Done, ..self };
        if left == 0 {
            (done, None)
        } else if nothing_owed(self.logs) {
            (FlushView { logs: self.logs.drained(), ..done }, None)
        } else {
            (
                FlushView {
                    phase: FlushPhase::Logs { left: (left - 1) as usize },
                    logs: self.logs.drained(),
                    ..self
                },
                Some(
                    Parcel::Logs {
                        lines: self.logs.batch(),
                        dropped: self.logs.dropped,
                        seq: self.logs.drained().seq,
                    },
                ),
            )
        }
    }

    /// The next batch, and what comes after it. Log lines follow once the
    /// metrics are drained or their batches used up.
    pub open spec fn next(self) -> (FlushView, Option<Parcel>) {
        match self.phase {
            FlushPhase::Metrics { left } => if left == 0 {
                self.next_logs(MAX_SHUTDOWN_FLUSH_BATCHES)
            } else if nothing_owed(self.metrics) {
                (FlushView { metrics: self.metrics.drained(), ..self }).next_logs(
                    MAX_SHUTDOWN_FLUSH_BATCHES,
                )
            } else {
                (
                    FlushView {
                        phase: FlushPhase::Metrics { left: (left - 1) as usize },
                        metrics: self.metrics.drained(),
                        ..self
                    },
                    Some(
                        Parcel::Metrics {
                            samples: self.metrics.batch(),
                            dropped: self.metrics.dropped,
                            seq: self.metrics.drained().seq,
                        },
                    ),
                )
            },
            FlushPhase::Logs { left } => self.next_logs(left),
            FlushPhase::Done => (self, None),
        }
    }

    /// An upper bound on the batches still to come.
    pub open spec fn budget(self) -> nat {
        match self.phase {
            FlushPhase::Metrics { left } => (left + MAX_SHUTDOWN_FLUSH_BATCHES) as nat,
            FlushPhase::Logs { left } => left as nat,
            FlushPhase::Done => 0,
        }
    }

    /// All batches still to come, if nothing is recorded meanwhile and every
    /// batch is taken.
    pub open spec fn parcels(self) -> Seq<Parcel>
        decreases self.budget(),
    {
        let (after, parcel) = self.next();
        match parcel {
            Some(p) => if after.budget() < self.budget() {
                seq![p] + after.parcels()
            } else {
                seq![p]
            },
            None => Seq::empty(),
        }
    }

    /// The state in which they leave the buffers.
    pub open spec fn end(self) -> FlushView
        decreases self.budget(),
    {
        let (after, parcel) = self.next();
        if parcel is Some && after.budget() < self.budget() {
            after.end()
        } else {
            after
        }
    }

    /// What is left in the buffers fits into the batches that may still be tried.
    pub open spec fn fits(self) -> bool {
        match self.phase {
            FlushPhase::Metrics { left } => {
                &&& fits_in(self.metrics, left)
                &&& fits_in(self.logs, MAX_SHUTDOWN_FLUSH_BATCHES)
            },
            FlushPhase::Logs { left } => {
                &&& self.metrics.items.len() == 0
                &&& self.metrics.dropped == 0
                &&& fits_in(self.logs, left)
            },
            FlushPhase::Done => {
                &&& self.metrics.items.len() == 0
                &&& self.metrics.dropped == 0
                &&& self.logs.items.len() == 0
                &&& self.logs.dropped == 0
            },
        }
    }
}

/// The entries of a ring, and its dropped count, fit into `left` batches.
pub open spec fn fits_in<T>(r: RingView<T>, left: usize) -> bool {
    &&& r.items.len() <= left * r.batch_cap
    &&& left == 0 ==> r.dropped == 0
}

/// The samples in a row of batches.
pub open spec fn samples_in(parcels: Seq<Parcel>) -> Seq<ToolCallSample>
    decreases parcels.len(),
{
    if parcels.len() == 0 {
        Seq::empty()
    } else {
        (match parcels[0] {
            Parcel::Metrics { samples, .. } => samples,
            Parcel::Logs { .. } => Seq::empty(),
        }) + samples_in(parcels.drop_first())
    }
}

/// The log lines in a row of batches.
pub open spec fn lines_in(parcels: Seq<Parcel>) -> Seq<LogLineSample>
    decreases parcels.len(),
{
    if parcels.len() == 0 {
        Seq::empty()
    } else {
        (match parcels[0] {
            Parcel::Metrics { .. } => Seq::empty(),
            Parcel::Logs { lines, .. } => lines,
        }) + lines_in(parcels.drop_first())
    }
}

/// The dropped samples that a row of batches reports.
pub open spec fn dropped_samples_in(parcels: Seq<Parcel>) -> nat
    decreases parcels.len(),
{
    if parcels.len() == 0 {
        0
    } else {
        (match parcels[0] {
            Parcel::Metrics { dropped, .. } => dropped as nat,
            Parcel::Logs { .. } => 0,
        }) + dropped_samples_in(parcels.drop_first())
    }
}

/// The dropped log lines that a row of batches reports.
pub open spec fn dropped_lines_in(parcels: Seq<Parcel>) -> nat
    decreases parcels.len(),
{
    if parcels.len() == 0 {
        0
    } else {
        (match parcels[0] {
            Parcel::Metrics { .. } => 0,
            Parcel::Logs { dropped, .. } => dropped as nat,
        }) + dropped_lines_in(parcels.drop_first())
    }
}

/// The flush of a session that has ended.
pub struct ShutdownFlush {
    phase: FlushPhase,
}

impl ShutdownFlush {
    /// How far the flush has come.
    pub closed spec fn phase(self) -> FlushPhase {
        self.phase
    }

    /// Starts the flush. Only a requested stop is flushed: after any other end
    /// the buffers carry over to the next session.
    pub fn begin(stopping: bool) -> (r: ShutdownFlush)
        ensures
            r.phase() == if stopping {
                FlushPhase::Metrics { left: MAX_SHUTDOWN_FLUSH_BATCHES }
            } else {
                FlushPhase::Done
            },
    {
        ShutdownFlush {
            phase: if stopping {
                FlushPhase::Metrics { left: MAX_SHUTDOWN_FLUSH_BATCHES }
            } else {
                FlushPhase::Done
            },
        }
    }

    /// The next message to send, stamped `now`; none once the flush is over.
    pub fn next(
        &mut self,
        metrics: &mut MetricsBuffer,
        logs: &mut LogBuffer,
        now: UtcTime,
    ) -> (r: Option<AgentMessage>)
        ensures
            ({
                let before = FlushView {
                    phase: old(self).phase(),
                    metrics: old(metrics)@,
                    logs: old(logs)@,
                };
                let (after, parcel) = before.next();
                &&& final(self).phase() == after.phase
                &&& final(metrics)@ == after.metrics
                &&& final(logs)@ == after.logs
                &&& match r {
                    Some(m) => parcel matches Some(p) && p.carried_by(m, now),
                    None => parcel is None,
                }
            }),
    {
        if let FlushPhase::Metrics { left } = self.phase {
            if left > 0 {
                let (samples, dropped, seq): (Vec<ToolCallSample>, u64, u64) = metrics.drain();
                let message: Option<AgentMessage> = batch_to_message_at(
                    samples.as_slice(),
                    dropped,
                    seq,
                    now,
                );
                if message.is_some() {
                    self.phase = FlushPhase::Metrics { left: left - 1 };
                    return message;
                }
            }
            self.phase = FlushPhase::Logs { left: MAX_SHUTDOWN_FLUSH_BATCHES };
        }
        if let FlushPhase::Logs { left } = self.phase {
            if left > 0 {
                let message: Option<AgentMessage> = flush_step(logs, now);
                if message.is_some() {
                    self.phase = FlushPhase::Logs { left: left - 1 };
                    return message;
                }
            }
            self.phase = FlushPhase::Done;
        }
        None
    }

    /// The outbound channel is closed: the flush is over, and the batch that
    /// could not be sent is lost.
    pub fn send_failed(&mut self)
        ensures
            final(self).phase() is Done,
    {
        self.phase = FlushPhase::Done;
    }
}

proof fn lemma_drain_fits<T>(r: RingView<T>, left: usize)
    requires
        left > 0,
        fits_in(r, left),
    ensures
        fits_in(r.drained(), (left - 1) as usize),
        r.batch() + r.drained().items == r.items,
        nothing_owed(r) ==> r.items.len() == 0,
{
    let b = r.batch_cap;
    assert(left * b == (left - 1) * b + b && (b == 0 ==> left * b == 0)) by (nonlinear_arith);
    assert(r.batch() + r.drained().items =~= r.items);
}

proof fn lemma_parcels(v: FlushView)
    requires
        v.fits(),
    ensures
        samples_in(v.parcels()) == v.metrics.items,
        lines_in(v.parcels()) == v.logs.items,
        dropped_samples_in(v.parcels()) == v.metrics.dropped,
        dropped_lines_in(v.parcels()) == v.logs.dropped,
        v.end().metrics.items.len() == 0,
        v.end().metrics.dropped == 0,
        v.end().logs.items.len() == 0,
        v.end().logs.dropped == 0,
    decreases v.budget(),
{
    let (after, parcel) = v.next();
    match v.phase {
        FlushPhase::Metrics { left } => {
            if left > 0 {
                lemma_drain_fits(v.metrics, left);
            }
            lemma_drain_fits(v.logs, MAX_SHUTDOWN_FLUSH_BATCHES);
        },
        FlushPhase::Logs { left } => {
            if left > 0 {
                lemma_drain_fits(v.logs, left);
            }
        },
        FlushPhase::Done => {},
    }
    match parcel {
        Some(p) => {
            assert(after.fits());
            lemma_parcels(after);
            assert(v.parcels() == seq![p] + after.parcels());
            assert(v.parcels()[0] == p);
            assert(v.parcels().drop_first() =~= after.parcels());
        },
        None => {
            assert(v.metrics.items =~= Seq::empty());
            assert(v.logs.items =~= Seq::empty());
        },
    }
}

/// How many of the batches are metrics reports.
pub open spec fn reports_in(parcels: Seq<Parcel>) -> nat
    decreases parcels.len(),
{
    if parcels.len() == 0 {
        0
    } else {
        reports_in(parcels.drop_first()) + if parcels[0] is Metrics {
            1nat
        } else {
            0nat
        }
    }
}

/// No metrics report follows a batch of log lines.
pub open spec fn metrics_first(parcels: Seq<Parcel>) -> bool {
    forall|i: int, j: int|
        0 <= i < j < parcels.len() && #[trigger] parcels[i] is Logs ==> #[trigger] parcels[j] is Logs
}

proof fn lemma_order(v: FlushView)
    ensures
        metrics_first(v.parcels()),
        reports_in(v.parcels()) <= match v.phase {
            FlushPhase::Metrics { left } => left as nat,
            _ => 0,
        },
        v.parcels().len() - reports_in(v.parcels()) <= match v.phase {
            FlushPhase::Metrics { .. } => MAX_SHUTDOWN_FLUSH_BATCHES as nat,
            FlushPhase::Logs { left } => left as nat,
            FlushPhase::Done => 0,
        },
        v.phase !is Metrics ==> forall|i: int|
            0 <= i < v.parcels().len() ==> #[trigger] v.parcels()[i] is Logs,
    decreases v.budget(),
{
    let (after, parcel) = v.next();
    if let Some(p) = parcel {
        lemma_order(after);
        let rest = after.parcels();
        assert(v.parcels() == seq![p] + rest);
        assert(v.parcels().drop_first() =~= rest);
        assert(forall|i: int| 0 < i < v.parcels().len() ==> v.parcels()[i] == rest[i - 1]);
    }
}

/// Metrics are shipped before log lines, in at most as many batches of each
/// kind as a shutdown allows.
pub proof fn law_shutdown_flush_ships_metrics_first(v: FlushView)
    requires
        v.phase == (FlushPhase::Metrics { left: MAX_SHUTDOWN_FLUSH_BATCHES }),
    ensures
        metrics_first(v.parcels()),
        reports_in(v.parcels()) <= MAX_SHUTDOWN_FLUSH_BATCHES,
        v.parcels().len() - reports_in(v.parcels()) <= MAX_SHUTDOWN_FLUSH_BATCHES,
{
    lemma_order(v);
}

/// A flush of buffers that fit into its batches ships every sample and every
/// line, in order and once, reports every dropped one, and leaves the buffers
/// empty, with no dropped count pending.
pub proof fn law_shutdown_flush_ships_everything(v: FlushView)
    requires
        v.phase == (FlushPhase::Metrics { left: MAX_SHUTDOWN_FLUSH_BATCHES }),
        v.metrics.items.len() <= MAX_SHUTDOWN_FLUSH_BATCHES * v.metrics.batch_cap,
        v.logs.items.len() <= MAX_SHUTDOWN_FLUSH_BATCHES * v.logs.batch_cap,
    ensures
        samples_in(v.parcels()) == v.metrics.items,
        lines_in(v.parcels()) == v.logs.items,
        dropped_samples_in(v.parcels()) == v.metrics.dropped,
        dropped_lines_in(v.parcels()) == v.logs.dropped,
        v.end().metrics.items.len() == 0,
        v.end().metrics.dropped == 0,
        v.end().logs.items.len() == 0,
        v.end().logs.dropped == 0,
{
    lemma_parcels(v);
}

/// Full buffers of the default size fit into the batches of a flush.
pub proof fn law_default_buffers_fit_the_flush(v: FlushView)
    requires
        v.metrics.cap == DEFAULT_BUFFER_CAP,
        v.metrics.batch_cap == DEFAULT_BATCH_CAP,
        v.metrics.within_cap(),
        v.logs.cap == DEFAULT_LOG_BUFFER_CAP,
        v.logs.batch_cap == DEFAULT_LOG_BATCH_CAP,
        v.logs.within_cap(),
    ensures
        v.metrics.items.len() <= MAX_SHUTDOWN_FLUSH_BATCHES * v.metrics.batch_cap,
        v.logs.items.len() <= MAX_SHUTDOWN_FLUSH_BATCHES * v.logs.batch_cap,
{
}

/// Whatever happens to the buffers between its batches, every batch of a flush
/// uses up its budget, so that no producer can hold a shutdown open.
pub proof fn law_shutdown_flush_is_bounded(v: FlushView)
    ensures
        v.next().1 is Some ==> v.next().0.budget() < v.budget(),
        v.next().1 is None ==> v.next().0.phase is Done,
        v.phase == (FlushPhase::Metrics { left: MAX_SHUTDOWN_FLUSH_BATCHES }) ==> v.budget() <= 2
            * MAX_SHUTDOWN_FLUSH_BATCHES,
{
}

proof fn lemma_ships_oldest(v: FlushView)
    ensures
        ({
            let m = match v.phase {
                FlushPhase::Metrics { left } => left * v.metrics.batch_cap,
                _ => 0,
            };
            let l = match v.phase {
                FlushPhase::Metrics { .. } => MAX_SHUTDOWN_FLUSH_BATCHES * v.logs.batch_cap,
                FlushPhase::Logs { left } => left * v.logs.batch_cap,
                FlushPhase::Done => 0,
            };
            &&& samples_in(v.parcels()) == v.metrics.items.take(at_most(m, v.metrics.items.len()))
            &&& v.end().metrics.items == v.metrics.items.skip(at_most(m, v.metrics.items.len()))
            &&& lines_in(v.parcels()) == v.logs.items.take(at_most(l, v.logs.items.len()))
            &&& v.end().logs.items == v.logs.items.skip(at_most(l, v.logs.items.len()))
        }),
    decreases v.budget(),
{
    let (after, parcel) = v.next();
    let (mc, lc) = (v.metrics.batch_cap, v.logs.batch_cap);
    match v.phase {
        FlushPhase::Metrics { left } => {
            lemma_batch_of(v.metrics, left as nat);
            lemma_batch_of(v.logs, MAX_SHUTDOWN_FLUSH_BATCHES as nat);
        },
        FlushPhase::Logs { left } => {
            lemma_batch_of(v.logs, left as nat);
            assert(v.metrics.items.skip(0) =~= v.metrics.items);
        },
        FlushPhase::Done => {
            assert(v.metrics.items.skip(0) =~= v.metrics.items);
            assert(v.logs.items.skip(0) =~= v.logs.items);
        },
    }
    match parcel {
        Some(p) => {
            lemma_ships_oldest(after);
            assert(v.parcels() == seq![p] + after.parcels());
            assert(v.parcels()[0] == p);
            assert(v.parcels().drop_first() =~= after.parcels());
            assert(samples_in(v.parcels()) =~= v.metrics.items.take(
                samples_in(v.parcels()).len() as int,
            ));
            assert(lines_in(v.parcels()) =~= v.logs.items.take(
                lines_in(v.parcels()).len() as int,
            ));
        },
        None => {
            assert(v.end() == after);
        },
    }
}

/// The lesser of a limit and a length.
pub open spec fn at_most(limit: int, len: nat) -> int {
    if limit <= len {
        limit
    } else {
        len as int
    }
}

proof fn lemma_batch_of<T>(r: RingView<T>, left: nat)
    ensures
        left > 0 ==> {
            let rest = (left - 1) * r.batch_cap;
            let all = left * r.batch_cap;
            let here = at_most(all as int, r.items.len());
            let later = at_most(rest, r.drained().items.len());
            &&& 0 <= rest
            &&& r.batch() + r.drained().items.take(later) == r.items.take(here)
            &&& r.drained().items.skip(later) == r.items.skip(here)
            &&& nothing_owed(r) ==> here == 0 && r.drained().items == r.items
        },
        left == 0 ==> left * r.batch_cap == 0,
        r.items.take(0) == Seq::<T>::empty(),
        r.items.skip(0) == r.items,
{
    let b = r.batch_cap;
    assert(r.items.take(0) =~= Seq::<T>::empty());
    assert(r.items.skip(0) =~= r.items);
    if left > 0 {
        assert(left * b == (left - 1) * b + b && (left - 1) * b >= 0 && (b == 0 ==> left * b == 0))
            by (nonlinear_arith)
            requires
                left > 0,
        ;
        let here = at_most((left * b) as int, r.items.len());
        let later = at_most((left - 1) * b, r.drained().items.len());
        assert(r.batch() + r.drained().items.take(later) =~= r.items.take(here));
        assert(r.drained().items.skip(later) =~= r.items.skip(here));
        if nothing_owed(r) {
            assert(r.drained().items =~= r.items);
        }
    } else {
        assert(left * b == 0) by (nonlinear_arith)
            requires
                left == 0,
        ;
    }
}

/// However full the buffers are, a flush ships their oldest entries, as many as
/// its batches hold, in order and once, and leaves exactly the others.
pub proof fn law_shutdown_flush_ships_the_oldest(v: FlushView)
    requires
        v.phase == (FlushPhase::Metrics { left: 16 }),
    ensures
        ({
            let m = at_most(16int * v.metrics.batch_cap, v.metrics.items.len());
            let l = at_most(16int * v.logs.batch_cap, v.logs.items.len());
            &&& samples_in(v.parcels()) == v.metrics.items.take(m)
            &&& v.end().metrics.items == v.metrics.items.skip(m)
            &&& lines_in(v.parcels()) == v.logs.items.take(l)
            &&& v.end().logs.items == v.logs.items.skip(l)
        }),
{
    lemma_ships_oldest(v);
}

/// Each shipped batch is one drain of its buffer: its oldest entries, with the
/// dropped count and the number of that drain, and it leaves the other buffer
/// alone. While metrics are owed and batches left, no log lines are shipped.
pub proof fn law_parcel_is_one_drain(v: FlushView)
    ensures
        ({
            let (after, parcel) = v.next();
            &&& parcel matches Some(Parcel::Metrics { samples, dropped, seq }) ==> {
                &&& samples + after.metrics.items == v.metrics.items
                &&& dropped == v.metrics.dropped
                &&& after.metrics.dropped == 0
                &&& seq == after.metrics.seq
                &&& v.metrics.seq < u64::MAX ==> seq == v.metrics.seq + 1
                &&& samples.len() > 0 || dropped > 0
                &&& after.logs == v.logs
            }
            &&& parcel matches Some(Parcel::Logs { lines, dropped, seq }) ==> {
                &&& lines + after.logs.items == v.logs.items
                &&& dropped == v.logs.dropped
                &&& after.logs.dropped == 0
                &&& seq == after.logs.seq
                &&& v.logs.seq < u64::MAX ==> seq == v.logs.seq + 1
                &&& lines.len() > 0 || dropped > 0
                &&& after.metrics.items == v.metrics.items
                &&& v.phase matches FlushPhase::Metrics { left } ==> left == 0 || (
                v.metrics.dropped == 0 && (v.metrics.items.len() == 0 || v.metrics.batch_cap == 0))
            }
            &&& parcel is None ==> after.metrics.items == v.metrics.items && after.logs.items
                == v.logs.items
            &&& v.phase is Done ==> parcel is None && after == v
        }),
{
    let (after, parcel) = v.next();
    assert(v.metrics.batch() + v.metrics.drained().items =~= v.metrics.items);
    assert(v.logs.batch() + v.logs.drained().items =~= v.logs.items);
    if v.metrics.batch().len() == 0 {
        assert(v.metrics.drained().items =~= v.metrics.items);
    }
    if v.logs.batch().len() == 0 {
        assert(v.logs.drained().items =~= v.logs.items);
    }
}

/// A shipped batch is carried by a message of its own kind, with its number and
/// its dropped count.
pub proof fn law_parcel_is_carried_whole(p: Parcel, m: AgentMessage, now: UtcTime)
    requires
        p.carried_by(m, now),
    ensures
        match p {
            Parcel::Metrics { samples, dropped, seq } => reports(m, samples, dropped, seq, now),
            Parcel::Logs { lines, dropped, seq } => ships(m, lines, dropped, seq, now),
        },
        p matches Parcel::Metrics { samples, dropped, seq } ==> (m.kind matches Some(
            AgentKind::MetricsReport(r),
        ) && r.invocations@.len() == samples.len() && r.seq == seq && r.dropped_overflow == dropped),
        p matches Parcel::Logs { lines, dropped, seq } ==> (m.kind matches Some(
            AgentKind::LogBatch(b),
        ) && b.lines@.len() == lines.len() && b.seq == seq && b.dropped_overflow == dropped),
{
}

} // verus!
