//! Per-call tool invocation metrics: capture at the dispatch site and batched
//! reports to the Control Plane.
//!
//! Recording never refuses a sample: a full buffer drops its oldest one and
//! counts it, and the count rides on the next report. Only tool names and
//! statistics are captured here; error messages travel as hashes.

use vstd::prelude::*;

use crate::bytes::{bytes_of, bytes_or_empty};
use crate::externals::{blake3_hex, blake3_hex_of};
use crate::proto::{
    exact_timestamp, whole_timestamp, AgentKind, AgentMessage, MetricsReport, Timestamp,
    ToolInvocationSample, ToolOutcome,
};
use crate::ring::{Ring, RingView};
use crate::text::{text_of, text_or_empty};
use crate::time::{Duration, UtcTime, NANOS_PER_MILLI};

verus! {

/// How many samples the buffer holds by default.
pub const DEFAULT_BUFFER_CAP: usize = 5_000;

/// How many samples one report carries at most by default.
pub const DEFAULT_BATCH_CAP: usize = 500;

/// Seconds between two reports by default.
pub const DEFAULT_FLUSH_INTERVAL_SECS: u64 = 30;

/// One tool call, as the dispatch site saw it.
#[derive(Clone, Debug)]
pub struct ToolCallSample {
    pub plugin_id: String,
    pub tool_name: String,
    pub binding_id: Option<String>,
    pub started_at: UtcTime,
    pub duration: Duration,
    pub outcome: SampleOutcome,
    pub error_code: Option<String>,
    /// Hash of the error message, made with [`MetricsBuffer::hash_error`].
    pub error_hash: Option<String>,
    pub request_id: Option<String>,
    pub caller_subject: Option<String>,
    /// Request and response payloads, only where the gateway captures them.
    /// Where `payload_encrypted` is set they are ciphertext under the key of
    /// version `dek_version`, otherwise plaintext.
    pub request_payload: Option<Vec<u8>>,
    pub response_payload: Option<Vec<u8>>,
    pub payload_encrypted: bool,
    pub dek_version: u32,
}

/// How a tool call ended.
#[derive(Clone, Copy, Debug, PartialEq, Eq, Structural)]
pub enum SampleOutcome {
    Success,
    ClientError,
    ServerError,
    PolicyDenied,
    /// Refused before dispatch, because the quota is exhausted. No tool ran.
    QuotaExceeded,
    /// A cached answer was replayed. No tool ran, and nothing is billed.
    IdempotentReplay,
}

/// The wire form of an outcome.
pub open spec fn outcome_on_wire(o: SampleOutcome) -> ToolOutcome {
    match o {
        SampleOutcome::Success => ToolOutcome::Success,
        SampleOutcome::ClientError => ToolOutcome::ClientError,
        SampleOutcome::ServerError => ToolOutcome::ServerError,
        SampleOutcome::PolicyDenied => ToolOutcome::PolicyDenied,
        SampleOutcome::QuotaExceeded => ToolOutcome::QuotaExceeded,
        SampleOutcome::IdempotentReplay => ToolOutcome::IdempotentReplay,
    }
}

impl SampleOutcome {
    /// The wire form of the outcome.
    pub fn to_proto(self) -> (r: ToolOutcome)
        ensures
            r == outcome_on_wire(self),
    {
        match self {
            SampleOutcome::Success => ToolOutcome::Success,
            SampleOutcome::ClientError => ToolOutcome::ClientError,
            SampleOutcome::ServerError => ToolOutcome::ServerError,
            SampleOutcome::PolicyDenied => ToolOutcome::PolicyDenied,
            SampleOutcome::QuotaExceeded => ToolOutcome::QuotaExceeded,
            SampleOutcome::IdempotentReplay => ToolOutcome::IdempotentReplay,
        }
    }
}

/// The milliseconds of a call on the wire, saturating at 32 bits.
pub open spec fn wire_millis(d: Duration) -> u32 {
    let ms = d.nanos() / NANOS_PER_MILLI as nat;
    if ms <= u32::MAX {
        ms as u32
    } else {
        u32::MAX
    }
}

/// `w` is the wire form of the sample `s`. The key version is zero unless the
/// payloads are encrypted.
pub open spec fn sample_on_wire(s: ToolCallSample, w: ToolInvocationSample) -> bool {
    &&& w.plugin_id@ == s.plugin_id@
    &&& w.tool_name@ == s.tool_name@
    &&& w.binding_id@ == text_or_empty(s.binding_id)
    &&& w.started_at == Some(exact_timestamp(s.started_at))
    &&& w.duration_ms == wire_millis(s.duration)
    &&& w.outcome == outcome_on_wire(s.outcome)
    &&& w.error_code@ == text_or_empty(s.error_code)
    &&& w.error_hash@ == text_or_empty(s.error_hash)
    &&& w.request_id@ == text_or_empty(s.request_id)
    &&& w.caller_subject@ == text_or_empty(s.caller_subject)
    &&& w.request_payload@ == bytes_or_empty(s.request_payload)
    &&& w.response_payload@ == bytes_or_empty(s.response_payload)
    &&& w.payload_encrypted == s.payload_encrypted
    &&& w.dek_version == if s.payload_encrypted {
        s.dek_version
    } else {
        0
    }
}

/// `m` reports the samples, in order, and the count of those dropped.
pub open spec fn reports(
    m: AgentMessage,
    samples: Seq<ToolCallSample>,
    dropped: u64,
    seq: u64,
    now: UtcTime,
) -> bool {
    &&& m.kind matches Some(AgentKind::MetricsReport(r))
    &&& r.at == Some(whole_timestamp(now))
    &&& r.seq == seq
    &&& r.dropped_overflow == dropped
    &&& r.invocations@.len() == samples.len()
    &&& forall|i: int|
        0 <= i < samples.len() ==> sample_on_wire(samples[i], #[trigger] r.invocations@[i])
}

/// The wire form of one sample.
fn to_wire(s: &ToolCallSample) -> (r: ToolInvocationSample)
    ensures
        sample_on_wire(*s, r),
{
    let millis: u128 = s.duration.as_millis();
    let duration_ms: u32 = if millis <= u32::MAX as u128 {
        millis as u32
    } else {
        u32::MAX
    };
    ToolInvocationSample {
        plugin_id: s.plugin_id.clone(),
        tool_name: s.tool_name.clone(),
        binding_id: text_of(&s.binding_id),
        started_at: Some(Timestamp::exact(s.started_at)),
        duration_ms,
        outcome: s.outcome.to_proto(),
        error_code: text_of(&s.error_code),
        error_hash: text_of(&s.error_hash),
        request_id: text_of(&s.request_id),
        caller_subject: text_of(&s.caller_subject),
        request_payload: bytes_of(&s.request_payload),
        response_payload: bytes_of(&s.response_payload),
        payload_encrypted: s.payload_encrypted,
        dek_version: if s.payload_encrypted {
            s.dek_version
        } else {
            0
        },
    }
}

/// The report of a drained batch, stamped with the instant `now`. A batch with
/// no samples and nothing dropped is not reported; one with only drops is.
pub fn batch_to_message_at(
    samples: &[ToolCallSample],
    dropped: u64,
    seq: u64,
    now: UtcTime,
) -> (r: Option<AgentMessage>)
    ensures
        r is None <==> samples@.len() == 0 && dropped == 0,
        r matches Some(m) ==> reports(m, samples@, dropped, seq, now),
{
    if samples.len() == 0 && dropped == 0 {
        return None;
    }
    let mut invocations: Vec<ToolInvocationSample> = Vec::new();
    let mut i: usize = 0;
    while i < samples.len()
        invariant
            i <= samples@.len(),
            invocations@.len() == i,
            forall|k: int| 0 <= k < i ==> sample_on_wire(samples@[k], #[trigger] invocations@[k]),
        decreases samples@.len() - i,
    {
        invocations.push(to_wire(&samples[i]));
        i = i + 1;
    }
    Some(
        AgentMessage {
            kind: Some(
                AgentKind::MetricsReport(
                    MetricsReport {
                        at: Some(Timestamp::whole(now)),
                        seq,
                        invocations,
                        dropped_overflow: dropped,
                    },
                ),
            ),
        },
    )
}

/// The report of a drained batch, stamped with the present instant.
pub fn batch_to_message(samples: &[ToolCallSample], dropped: u64, seq: u64) -> (r: Option<
    AgentMessage,
>)
    ensures
        r is None <==> samples@.len() == 0 && dropped == 0,
        r matches Some(m) ==> exists|now: UtcTime|
            now.has_date() && #[trigger] reports(m, samples@, dropped, seq, now),
{
    let now: UtcTime = UtcTime::now();
    batch_to_message_at(samples, dropped, seq, now)
}

/// The buffer between the dispatch path and the reports.
pub struct MetricsBuffer {
    ring: Ring<ToolCallSample>,
}

impl View for MetricsBuffer {
    type V = RingView<ToolCallSample>;

    closed spec fn view(&self) -> RingView<ToolCallSample> {
        self.ring@
    }
}

impl MetricsBuffer {
    /// An empty buffer of the default size.
    pub fn new() -> (r: MetricsBuffer)
        ensures
            r@ == RingView::<ToolCallSample>::empty(
                DEFAULT_BUFFER_CAP as nat,
                DEFAULT_BATCH_CAP as nat,
            ),
    {
        Self::with_caps(DEFAULT_BUFFER_CAP, DEFAULT_BATCH_CAP)
    }

    /// An empty buffer of `cap` samples, drained at most `batch_cap` at a time.
    pub fn with_caps(cap: usize, batch_cap: usize) -> (r: MetricsBuffer)
        ensures
            r@ == RingView::<ToolCallSample>::empty(cap as nat, batch_cap as nat),
            r@.within_cap(),
    {
        MetricsBuffer { ring: Ring::with_caps(cap, batch_cap) }
    }

    /// How many samples are buffered.
    pub fn len(&self) -> (r: usize)
        ensures
            r == self@.items.len(),
    {
        self.ring.len()
    }

    /// Records one sample. A full buffer drops its oldest sample and counts it.
    pub fn record(&mut self, sample: ToolCallSample)
        ensures
            final(self)@ == old(self)@.recorded(sample),
            old(self)@.within_cap() ==> final(self)@.within_cap(),
    {
        self.ring.record(sample);
    }

    /// Takes out the oldest samples, at most a batch of them, with the count
    /// of samples dropped since the last drain and the number of this drain.
    pub fn drain(&mut self) -> (r: (Vec<ToolCallSample>, u64, u64))
        ensures
            r.0@ == old(self)@.batch(),
            r.1 == old(self)@.dropped,
            r.2 == final(self)@.seq,
            final(self)@ == old(self)@.drained(),
            old(self)@.within_cap() ==> final(self)@.within_cap(),
    {
        self.ring.drain()
    }

    /// Puts a drained batch back in front, oldest first, and restores its
    /// dropped count. Samples that no longer fit are counted as dropped.
    pub fn requeue_front(&mut self, samples: Vec<ToolCallSample>, dropped: u64)
        ensures
            final(self)@ == old(self)@.requeued(samples@, dropped),
            old(self)@.within_cap() ==> final(self)@.within_cap(),
    {
        self.ring.requeue_front(samples, dropped);
    }

    /// The hash under which an error message is reported; none for an empty
    /// message.
    pub fn hash_error(msg: &str) -> (r: Option<String>)
        ensures
            r is None <==> msg@.len() == 0,
            r matches Some(h) ==> h@ == blake3_hex_of(vstd::utf8::encode_utf8(msg@)) && h@.len()
                == 64,
    {
        if msg.is_empty() {
            return None;
        }
        Some(blake3_hex(msg.as_bytes()))
    }
}

impl Default for MetricsBuffer {
    fn default() -> (r: MetricsBuffer)
        ensures
            r@ == RingView::<ToolCallSample>::empty(
                DEFAULT_BUFFER_CAP as nat,
                DEFAULT_BATCH_CAP as nat,
            ),
    {
        Self::new()
    }
}

/// A batch that has left the buffer and is not delivered yet.
pub struct InFlight {
    samples: Vec<ToolCallSample>,
    dropped: u64,
}

/// What became of a batch that was to be sent.
#[derive(Clone, Copy, Debug, PartialEq, Eq, Structural)]
pub enum SendOutcome {
    /// There was nothing to report.
    NothingToSend,
    /// The report is on its way.
    Sent,
    /// The outbound channel is closed.
    Failed,
    /// The sender was cancelled while it waited.
    Aborted,
}

impl InFlight {
    /// The samples that are owed.
    pub closed spec fn samples(self) -> Seq<ToolCallSample> {
        self.samples@
    }

    /// The dropped count that is owed with them.
    pub closed spec fn dropped(self) -> u64 {
        self.dropped
    }

    /// The batch is on its way; nothing is owed any more.
    pub fn disarm(&mut self)
        ensures
            final(self).samples().len() == 0,
            final(self).dropped() == 0,
    {
        self.samples = Vec::new();
        self.dropped = 0;
    }

    /// Returns what is still owed to the buffer.
    pub fn give_back(self, buffer: &mut MetricsBuffer)
        ensures
            final(buffer)@ == old(buffer)@.requeued(self.samples(), self.dropped()),
    {
        if self.samples.len() == 0 && self.dropped == 0 {
            assert(old(buffer)@.requeued(self.samples@, self.dropped).items =~= old(buffer)@.items);
            return;
        }
        buffer.requeue_front(self.samples, self.dropped);
    }
}

/// Starts one flush: drains a batch and makes its report, stamped `now`.
pub fn begin_flush(buffer: &mut MetricsBuffer, now: UtcTime) -> (r: (Option<AgentMessage>, InFlight))
    ensures
        final(buffer)@ == old(buffer)@.drained(),
        r.1.samples() == old(buffer)@.batch(),
        r.1.dropped() == old(buffer)@.dropped,
        r.0 is None <==> r.1.samples().len() == 0 && r.1.dropped() == 0,
        r.0 matches Some(m) ==> reports(
            m,
            old(buffer)@.batch(),
            old(buffer)@.dropped,
            final(buffer)@.seq,
            now,
        ),
{
    let (samples, dropped, seq): (Vec<ToolCallSample>, u64, u64) = buffer.drain();
    let message: Option<AgentMessage> = batch_to_message_at(samples.as_slice(), dropped, seq, now);
    (message, InFlight { samples, dropped })
}

/// Ends one flush, and says whether to go on with the next. A batch that was
/// not delivered goes back into the buffer.
pub fn end_flush(in_flight: InFlight, outcome: SendOutcome, buffer: &mut MetricsBuffer) -> (r: bool)
    ensures
        r == (outcome is Sent || outcome is NothingToSend),
        r ==> final(buffer)@ == old(buffer)@,
        !r ==> final(buffer)@ == old(buffer)@.requeued(in_flight.samples(), in_flight.dropped()),
{
    match outcome {
        SendOutcome::Sent | SendOutcome::NothingToSend => true,
        SendOutcome::Failed | SendOutcome::Aborted => {
            in_flight.give_back(buffer);
            false
        },
    }
}

/// Outcomes stay apart on the wire.
pub proof fn law_outcomes_are_distinct_on_the_wire(a: SampleOutcome, b: SampleOutcome)
    ensures
        outcome_on_wire(a) == outcome_on_wire(b) <==> a == b,
{
}

/// The milliseconds on the wire are those that have passed, and one more has
/// not, for every call shorter than 2^32 milliseconds; a longer one reports the
/// most there is.
pub proof fn law_wire_millis_fit_the_call(d: Duration)
    ensures
        d.nanos() < 4_294_967_296_000_000 ==> {
            &&& wire_millis(d) * 1_000_000 <= d.nanos()
            &&& d.nanos() < (wire_millis(d) + 1) * 1_000_000
        },
        d.nanos() >= 4_294_967_296_000_000 ==> wire_millis(d) == u32::MAX,
{
}

/// A longer call never reports fewer milliseconds.
pub proof fn law_longer_calls_report_no_less(shorter: Duration, longer: Duration)
    requires
        shorter.nanos() <= longer.nanos(),
    ensures
        wire_millis(shorter) <= wire_millis(longer),
{
}

/// A sample arrives whole: names, texts and payloads as they were captured, with
/// nothing for what is missing; the instant to the nanosecond; and the outcome
/// under its own name.
pub proof fn law_sample_arrives_whole(s: ToolCallSample, w: ToolInvocationSample)
    requires
        sample_on_wire(s, w),
        s.started_at.subsec_nanos() < 2_000_000_000,
    ensures
        w.plugin_id@ == s.plugin_id@,
        w.tool_name@ == s.tool_name@,
        s.binding_id matches Some(t) ==> w.binding_id@ == t@,
        s.binding_id is None ==> w.binding_id@.len() == 0,
        w.started_at matches Some(at) && at.seconds == s.started_at.seconds() && at.nanos
            == s.started_at.subsec_nanos(),
        s.error_code matches Some(t) ==> w.error_code@ == t@,
        s.error_code is None ==> w.error_code@.len() == 0,
        s.error_hash matches Some(t) ==> w.error_hash@ == t@,
        s.error_hash is None ==> w.error_hash@.len() == 0,
        s.request_id matches Some(t) ==> w.request_id@ == t@,
        s.request_id is None ==> w.request_id@.len() == 0,
        s.caller_subject matches Some(t) ==> w.caller_subject@ == t@,
        s.caller_subject is None ==> w.caller_subject@.len() == 0,
        s.request_payload matches Some(b) ==> w.request_payload@ == b@,
        s.request_payload is None ==> w.request_payload@.len() == 0,
        s.response_payload matches Some(b) ==> w.response_payload@ == b@,
        s.response_payload is None ==> w.response_payload@.len() == 0,
        s.duration.nanos() < 4_294_967_296_000_000 ==> w.duration_ms * 1_000_000
            <= s.duration.nanos() < (w.duration_ms + 1) * 1_000_000,
        s.duration.nanos() >= 4_294_967_296_000_000 ==> w.duration_ms == u32::MAX,
{
    law_wire_millis_fit_the_call(s.duration);
}

/// An outcome goes by the same name on the wire.
pub proof fn law_outcome_keeps_its_name(s: ToolCallSample, w: ToolInvocationSample)
    requires
        sample_on_wire(s, w),
    ensures
        w.outcome is Success <==> s.outcome is Success,
        w.outcome is ClientError <==> s.outcome is ClientError,
        w.outcome is ServerError <==> s.outcome is ServerError,
        w.outcome is PolicyDenied <==> s.outcome is PolicyDenied,
        w.outcome is QuotaExceeded <==> s.outcome is QuotaExceeded,
        w.outcome is IdempotentReplay <==> s.outcome is IdempotentReplay,
{
}

/// Ciphertext carries the version of its key, and plaintext never carries one;
/// which of the two it is, is told as it was captured.
pub proof fn law_only_ciphertext_carries_a_version(s: ToolCallSample, w: ToolInvocationSample)
    requires
        sample_on_wire(s, w),
    ensures
        w.payload_encrypted == s.payload_encrypted,
        s.payload_encrypted ==> w.dek_version == s.dek_version,
        !s.payload_encrypted ==> w.dek_version == 0,
{
}

/// A report holds every sample of its batch, each in its place, and the batch's
/// own number and dropped count, at the second at which it was made; also where
/// there are only drops to tell.
pub proof fn law_report_holds_its_batch(
    m: AgentMessage,
    samples: Seq<ToolCallSample>,
    dropped: u64,
    seq: u64,
    now: UtcTime,
)
    requires
        reports(m, samples, dropped, seq, now),
    ensures
        m.kind matches Some(AgentKind::MetricsReport(r)) && {
            &&& r.invocations@.len() == samples.len()
            &&& r.seq == seq
            &&& r.dropped_overflow == dropped
            &&& r.at matches Some(at) && at.seconds == now.seconds() && at.nanos == 0
            &&& forall|i: int|
                0 <= i < samples.len() ==> {
                    &&& sample_on_wire(samples[i], #[trigger] r.invocations@[i])
                    &&& r.invocations@[i].tool_name@ == samples[i].tool_name@
                }
        },
{
}

} // verus!
