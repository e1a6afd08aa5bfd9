//! Gateway log lines: capture and batched shipping to the Control Plane. The
//! lane has the shape of the metrics lane, except that a line carries its
//! rendered message and that an undelivered batch is not kept.

use vstd::prelude::*;

use crate::proto::{
    exact_timestamp, whole_timestamp, AgentKind, AgentMessage, LogBatch, LogLevel as ProtoLevel,
    LogLine, Timestamp,
};
use crate::ring::{Ring, RingView};
use crate::text::{text_of, text_or_empty};
use crate::time::UtcTime;

verus! {

/// How many lines the buffer holds by default.
pub const DEFAULT_LOG_BUFFER_CAP: usize = 5_000;

/// How many lines one batch carries at most by default.
pub const DEFAULT_LOG_BATCH_CAP: usize = 500;

/// Seconds between two batches by default: out of step with heartbeats and
/// metrics.
pub const DEFAULT_LOG_FLUSH_INTERVAL_SECS: u64 = 45;

/// How severe a log line is.
#[derive(Clone, Copy, Debug, PartialEq, Eq, Structural)]
pub enum LogLevel {
    Trace,
    Debug,
    Info,
    Warn,
    Error,
}

/// The wire form of a level.
pub open spec fn level_on_wire(l: LogLevel) -> ProtoLevel {
    match l {
        LogLevel::Trace => ProtoLevel::Trace,
        LogLevel::Debug => ProtoLevel::Debug,
        LogLevel::Info => ProtoLevel::Info,
        LogLevel::Warn => ProtoLevel::Warn,
        LogLevel::Error => ProtoLevel::Error,
    }
}

impl LogLevel {
    /// The wire form of the level.
    pub fn to_proto(self) -> (r: ProtoLevel)
        ensures
            r == level_on_wire(self),
    {
        match self {
            LogLevel::Trace => ProtoLevel::Trace,
            LogLevel::Debug => ProtoLevel::Debug,
            LogLevel::Info => ProtoLevel::Info,
            LogLevel::Warn => ProtoLevel::Warn,
            LogLevel::Error => ProtoLevel::Error,
        }
    }
}

/// One captured log line.
#[derive(Clone, Debug)]
pub struct LogLineSample {
    pub at: UtcTime,
    pub level: LogLevel,
    pub target: String,
    pub message: String,
    pub plugin_id: Option<String>,
}

/// `w` is the wire form of the line `l`.
pub open spec fn line_on_wire(l: LogLineSample, w: LogLine) -> bool {
    &&& w.at == Some(exact_timestamp(l.at))
    &&& w.level == level_on_wire(l.level)
    &&& w.target@ == l.target@
    &&& w.message@ == l.message@
    &&& w.plugin_id@ == text_or_empty(l.plugin_id)
}

/// `m` ships the lines, in order, and the count of those dropped.
pub open spec fn ships(
    m: AgentMessage,
    lines: Seq<LogLineSample>,
    dropped: u64,
    seq: u64,
    now: UtcTime,
) -> bool {
    &&& m.kind matches Some(AgentKind::LogBatch(b))
    &&& b.at == Some(whole_timestamp(now))
    &&& b.seq == seq
    &&& b.dropped_overflow == dropped
    &&& b.lines@.len() == lines.len()
    &&& forall|i: int| 0 <= i < lines.len() ==> line_on_wire(lines[i], #[trigger] b.lines@[i])
}

/// The wire form of one line.
fn to_wire(l: &LogLineSample) -> (r: LogLine)
    ensures
        line_on_wire(*l, r),
{
    LogLine {
        at: Some(Timestamp::exact(l.at)),
        level: l.level.to_proto(),
        target: l.target.clone(),
        message: l.message.clone(),
        plugin_id: text_of(&l.plugin_id),
    }
}

/// The batch message of drained lines, stamped with the instant `now`. A batch
/// with no lines and nothing dropped is not sent; one with only drops is.
pub fn batch_to_message_at(
    lines: Vec<LogLineSample>,
    dropped: u64,
    seq: u64,
    now: UtcTime,
) -> (r: Option<AgentMessage>)
    ensures
        r is None <==> lines@.len() == 0 && dropped == 0,
        r matches Some(m) ==> ships(m, lines@, dropped, seq, now),
{
    if lines.len() == 0 && dropped == 0 {
        return None;
    }
    let mut wire: Vec<LogLine> = Vec::new();
    let mut i: usize = 0;
    while i < lines.len()
        invariant
            i <= lines@.len(),
            wire@.len() == i,
            forall|k: int| 0 <= k < i ==> line_on_wire(lines@[k], #[trigger] wire@[k]),
        decreases lines@.len() - i,
    {
        wire.push(to_wire(&lines[i]));
        i = i + 1;
    }
    Some(
        AgentMessage {
            kind: Some(
                AgentKind::LogBatch(
                    LogBatch {
                        at: Some(Timestamp::whole(now)),
                        seq,
                        lines: wire,
                        dropped_overflow: dropped,
                    },
                ),
            ),
        },
    )
}

/// The batch message of drained lines, stamped with the present instant.
pub fn batch_to_message(lines: Vec<LogLineSample>, dropped: u64, seq: u64) -> (r: Option<
    AgentMessage,
>)
    ensures
        r is None <==> lines@.len() == 0 && dropped == 0,
        r matches Some(m) ==> exists|now: UtcTime|
            now.has_date() && #[trigger] ships(m, lines@, dropped, seq, now),
{
    let now: UtcTime = UtcTime::now();
    batch_to_message_at(lines, dropped, seq, now)
}

/// The buffer between the log sink and the batches.
pub struct LogBuffer {
    ring: Ring<LogLineSample>,
}

impl View for LogBuffer {
    type V = RingView<LogLineSample>;

    closed spec fn view(&self) -> RingView<LogLineSample> {
        self.ring@
    }
}

impl LogBuffer {
    /// An empty buffer of the default size.
    pub fn new() -> (r: LogBuffer)
        ensures
            r@ == RingView::<LogLineSample>::empty(
                DEFAULT_LOG_BUFFER_CAP as nat,
                DEFAULT_LOG_BATCH_CAP as nat,
            ),
    {
        Self::with_caps(DEFAULT_LOG_BUFFER_CAP, DEFAULT_LOG_BATCH_CAP)
    }

    /// An empty buffer of `cap` lines, drained at most `batch_cap` at a time.
    pub fn with_caps(cap: usize, batch_cap: usize) -> (r: LogBuffer)
        ensures
            r@ == RingView::<LogLineSample>::empty(cap as nat, batch_cap as nat),
            r@.within_cap(),
    {
        LogBuffer { ring: Ring::with_caps(cap, batch_cap) }
    }

    /// How many lines are buffered.
    pub fn len(&self) -> (r: usize)
        ensures
            r == self@.items.len(),
    {
        self.ring.len()
    }

    /// Records one line. A full buffer drops its oldest line and counts it.
    pub fn record(&mut self, line: LogLineSample)
        ensures
            final(self)@ == old(self)@.recorded(line),
            old(self)@.within_cap() ==> final(self)@.within_cap(),
    {
        self.ring.record(line);
    }

    /// Takes out the oldest lines, at most a batch of them, with the count of
    /// lines dropped since the last drain and the number of this drain.
    pub fn drain(&mut self) -> (r: (Vec<LogLineSample>, u64, u64))
        ensures
            r.0@ == old(self)@.batch(),
            r.1 == old(self)@.dropped,
            r.2 == final(self)@.seq,
            final(self)@ == old(self)@.drained(),
            old(self)@.within_cap() ==> final(self)@.within_cap(),
    {
        self.ring.drain()
    }
}

impl Default for LogBuffer {
    fn default() -> (r: LogBuffer)
        ensures
            r@ == RingView::<LogLineSample>::empty(
                DEFAULT_LOG_BUFFER_CAP as nat,
                DEFAULT_LOG_BATCH_CAP as nat,
            ),
    {
        Self::new()
    }
}

/// Drains one batch and makes its message, stamped `now`.
pub fn flush_step(buffer: &mut LogBuffer, now: UtcTime) -> (r: Option<AgentMessage>)
    ensures
        final(buffer)@ == old(buffer)@.drained(),
        r is None <==> old(buffer)@.batch().len() == 0 && old(buffer)@.dropped == 0,
        r matches Some(m) ==> ships(
            m,
            old(buffer)@.batch(),
            old(buffer)@.dropped,
            final(buffer)@.seq,
            now,
        ),
{
    let (lines, dropped, seq): (Vec<LogLineSample>, u64, u64) = buffer.drain();
    batch_to_message_at(lines, dropped, seq, now)
}

/// Levels stay apart on the wire.
pub proof fn law_levels_are_distinct_on_the_wire(a: LogLevel, b: LogLevel)
    ensures
        level_on_wire(a) == level_on_wire(b) <==> a == b,
{
}

/// A line arrives whole: target and message as they were captured, the plugin
/// with nothing for what is missing, the instant to the nanosecond, and the
/// level under its own name.
pub proof fn law_line_arrives_whole(l: LogLineSample, w: LogLine)
    requires
        line_on_wire(l, w),
        l.at.subsec_nanos() < 2_000_000_000,
    ensures
        w.target@ == l.target@,
        w.message@ == l.message@,
        l.plugin_id matches Some(t) ==> w.plugin_id@ == t@,
        l.plugin_id is None ==> w.plugin_id@.len() == 0,
        w.at matches Some(at) && at.seconds == l.at.seconds() && at.nanos == l.at.subsec_nanos(),
        w.level is Trace <==> l.level is Trace,
        w.level is Debug <==> l.level is Debug,
        w.level is Info <==> l.level is Info,
        w.level is Warn <==> l.level is Warn,
        w.level is Error <==> l.level is Error,
{
}

/// A batch holds every line that was drained, each in its place, and the
/// drain's own number and dropped count, at the second at which it was made.
pub proof fn law_batch_holds_its_lines(
    m: AgentMessage,
    lines: Seq<LogLineSample>,
    dropped: u64,
    seq: u64,
    now: UtcTime,
)
    requires
        ships(m, lines, dropped, seq, now),
    ensures
        m.kind matches Some(AgentKind::LogBatch(b)) && {
            &&& b.lines@.len() == lines.len()
            &&& b.seq == seq
            &&& b.dropped_overflow == dropped
            &&& b.at matches Some(at) && at.seconds == now.seconds() && at.nanos == 0
            &&& forall|i: int|
                0 <= i < lines.len() ==> {
                    &&& line_on_wire(lines[i], #[trigger] b.lines@[i])
                    &&& b.lines@[i].message@ == lines[i].message@
                }
        },
{
}

} // verus!
