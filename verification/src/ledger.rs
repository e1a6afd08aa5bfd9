//! What becomes of everything recorded in a [`Ring`](crate::ring::Ring): laws
//! over whole histories of recording, draining, delivering and giving back.

use vstd::prelude::*;

use crate::ring::{counted, RingView};

verus! {

/// One thing that happens to a lane.
pub enum LaneOp {
    /// The next entry is recorded.
    Record,
    /// A batch is drained, to be sent. Nothing happens while another is in flight.
    Take,
    /// The batch in flight was delivered.
    Deliver,
    /// The batch in flight was not delivered and goes back into the ring.
    GiveBack,
}

/// A lane and its history. Entries are numbered in the order of recording.
pub struct Ledger {
    pub ring: RingView<nat>,
    /// How many entries were recorded.
    pub recorded: nat,
    /// How many batches were drained.
    pub drains: nat,
    /// The entries in flight, and the dropped count drained with them.
    pub in_flight: Seq<nat>,
    pub in_flight_dropped: u64,
    /// The entries delivered, and the dropped counts reported with them.
    pub delivered: Seq<nat>,
    pub reported: nat,
}

impl Ledger {
    /// A lane on which nothing has happened yet.
    pub open spec fn start(cap: nat, batch_cap: nat) -> Ledger {
        Ledger {
            ring: RingView::empty(cap, batch_cap),
            recorded: 0,
            drains: 0,
            in_flight: Seq::empty(),
            in_flight_dropped: 0,
            delivered: Seq::empty(),
            reported: 0,
        }
    }

    /// No batch is in flight.
    pub open spec fn idle(self) -> bool {
        self.in_flight.len() == 0 && self.in_flight_dropped == 0
    }

    /// The lane after one thing has happened.
    pub open spec fn step(self, op: LaneOp) -> Ledger {
        match op {
            LaneOp::Record => Ledger {
                ring: self.ring.recorded(self.recorded),
                recorded: self.recorded + 1,
                ..self
            },
            LaneOp::Take => if self.idle() {
                Ledger {
                    ring: self.ring.drained(),
                    drains: self.drains + 1,
                    in_flight: self.ring.batch(),
                    in_flight_dropped: self.ring.dropped,
                    ..self
                }
            } else {
                self
            },
            LaneOp::Deliver => Ledger {
                in_flight: Seq::empty(),
                in_flight_dropped: 0,
                delivered: self.delivered + self.in_flight,
                reported: self.reported + self.in_flight_dropped as nat,
                ..self
            },
            LaneOp::GiveBack => Ledger {
                ring: self.ring.requeued(self.in_flight, self.in_flight_dropped),
                in_flight: Seq::empty(),
                in_flight_dropped: 0,
                ..self
            },
        }
    }

    /// The lane after a whole history.
    pub open spec fn run(self, ops: Seq<LaneOp>) -> Ledger
        decreases ops.len(),
    {
        if ops.len() == 0 {
            self
        } else {
            self.run(ops.drop_last()).step(ops.last())
        }
    }

    /// The entries that were not dropped: delivered, in flight, or in the ring.
    pub open spec fn kept(self) -> Seq<nat> {
        self.delivered + self.in_flight + self.ring.items
    }

    /// The entries that were dropped, by the counters.
    pub open spec fn dropped(self) -> nat {
        self.reported + self.in_flight_dropped as nat + self.ring.dropped as nat
    }

    /// Every entry is either kept or counted as dropped.
    pub open spec fn accounted(self) -> bool {
        self.recorded == self.kept().len() + self.dropped()
    }

    /// The kept entries stand in the order in which they were recorded.
    pub open spec fn in_order(self) -> bool {
        rising(self.kept(), self.recorded)
    }
}

/// The numbers rise strictly, and all lie below `bound`.
pub open spec fn rising(s: Seq<nat>, bound: nat) -> bool {
    &&& forall|i: int, j: int| 0 <= i < j < s.len() ==> s[i] < s[j]
    &&& forall|i: int| 0 <= i < s.len() ==> s[i] < bound
}

proof fn lemma_rising_push(s: Seq<nat>, bound: nat)
    requires
        rising(s, bound),
    ensures
        rising(s.push(bound), bound + 1),
{
}

proof fn lemma_rising_cut(s: Seq<nat>, bound: nat, from: int, to: int)
    requires
        rising(s, bound),
        0 <= from <= to <= s.len(),
    ensures
        rising(s.take(from) + s.skip(to), bound),
{
    let t = s.take(from) + s.skip(to);
    assert forall|i: int, j: int| 0 <= i < j < t.len() implies t[i] < t[j] by {
        let a = if i < from {
            i
        } else {
            i - from + to
        };
        let b = if j < from {
            j
        } else {
            j - from + to
        };
        assert(t[i] == s[a] && t[j] == s[b]);
    }
    assert forall|i: int| 0 <= i < t.len() implies t[i] < bound by {
        let a = if i < from {
            i
        } else {
            i - from + to
        };
        assert(t[i] == s[a]);
    }
}

proof fn lemma_record(l: Ledger)
    requires
        l.ring.cap > 0,
        l.ring.within_cap(),
        l.accounted(),
        l.in_order(),
        l.recorded < u64::MAX,
    ensures
        l.step(LaneOp::Record).ring.cap == l.ring.cap,
        l.step(LaneOp::Record).ring.within_cap(),
        l.step(LaneOp::Record).accounted(),
        l.step(LaneOp::Record).in_order(),
{
    let m = l.step(LaneOp::Record);
    if l.ring.items.len() < l.ring.cap {
        assert(m.kept() =~= l.kept().push(l.recorded));
        lemma_rising_push(l.kept(), l.recorded);
    } else {
        let at = (l.delivered + l.in_flight).len() as int;
        let cut = l.kept().take(at) + l.kept().skip(at + 1);
        lemma_rising_cut(l.kept(), l.recorded, at, at + 1);
        lemma_rising_push(cut, l.recorded);
        assert(m.kept() =~= cut.push(l.recorded));
        assert(counted(l.ring.dropped, 1) == l.ring.dropped + 1);
    }
}

proof fn lemma_take(l: Ledger)
    requires
        l.ring.within_cap(),
        l.accounted(),
        l.in_order(),
    ensures
        l.step(LaneOp::Take).ring.cap == l.ring.cap,
        l.step(LaneOp::Take).ring.within_cap(),
        l.step(LaneOp::Take).accounted(),
        l.step(LaneOp::Take).in_order(),
{
    let m = l.step(LaneOp::Take);
    if l.idle() {
        let n = l.ring.batch_len() as int;
        assert(l.ring.items =~= l.ring.items.take(n) + l.ring.items.skip(n));
        assert(m.kept() =~= l.kept());
    }
}

proof fn lemma_give_back(l: Ledger)
    requires
        l.ring.cap > 0,
        l.ring.within_cap(),
        l.accounted(),
        l.in_order(),
        l.recorded < u64::MAX,
    ensures
        l.step(LaneOp::GiveBack).ring.cap == l.ring.cap,
        l.step(LaneOp::GiveBack).ring.within_cap(),
        l.step(LaneOp::GiveBack).accounted(),
        l.step(LaneOp::GiveBack).in_order(),
{
    let m = l.step(LaneOp::GiveBack);
    let lost = l.in_flight.len() - l.ring.readmitted(l.in_flight.len());
    let at = l.delivered.len() as int;
    let cut = l.kept().take(at) + l.kept().skip(at + lost);
    lemma_rising_cut(l.kept(), l.recorded, at, at + lost);
    assert(m.kept() =~= cut);
    assert(counted(l.ring.dropped, l.in_flight_dropped as nat + lost as nat) == l.ring.dropped
        + l.in_flight_dropped + lost);
}

proof fn lemma_step(l: Ledger, op: LaneOp)
    requires
        l.ring.cap > 0,
        l.ring.within_cap(),
        l.accounted(),
        l.in_order(),
        l.recorded < u64::MAX,
    ensures
        l.step(op).ring.cap == l.ring.cap,
        l.step(op).ring.within_cap(),
        l.step(op).accounted(),
        l.step(op).in_order(),
        l.step(op).recorded <= l.recorded + 1,
{
    match op {
        LaneOp::Record => lemma_record(l),
        LaneOp::Take => lemma_take(l),
        LaneOp::Deliver => {
            assert(l.step(op).kept() =~= l.kept());
        },
        LaneOp::GiveBack => lemma_give_back(l),
    }
}

proof fn lemma_run(l: Ledger, ops: Seq<LaneOp>)
    requires
        l.ring.cap > 0,
        l.ring.within_cap(),
        l.accounted(),
        l.in_order(),
        l.recorded + ops.len() < u64::MAX,
    ensures
        l.run(ops).ring.cap == l.ring.cap,
        l.run(ops).ring.within_cap(),
        l.run(ops).accounted(),
        l.run(ops).in_order(),
        l.run(ops).recorded <= l.recorded + ops.len(),
    decreases ops.len(),
{
    if ops.len() > 0 {
        lemma_run(l, ops.drop_last());
        lemma_step(l.run(ops.drop_last()), ops.last());
    }
}

/// However recording, draining, delivering and giving back interleave, every
/// entry is delivered, in flight, still in the ring, or counted in exactly one
/// dropped count.
pub proof fn law_every_entry_is_accounted_for(cap: nat, batch_cap: nat, ops: Seq<LaneOp>)
    requires
        cap > 0,
        ops.len() < u64::MAX,
    ensures
        Ledger::start(cap, batch_cap).run(ops).accounted(),
{
    lemma_run(Ledger::start(cap, batch_cap), ops);
}

/// However they interleave, entries are delivered and kept in the order in
/// which they were recorded, and none twice.
pub proof fn law_entries_stay_in_order(cap: nat, batch_cap: nat, ops: Seq<LaneOp>)
    requires
        cap > 0,
        ops.len() < u64::MAX,
    ensures
        Ledger::start(cap, batch_cap).run(ops).in_order(),
{
    lemma_run(Ledger::start(cap, batch_cap), ops);
}

proof fn lemma_limits(l: Ledger, ops: Seq<LaneOp>)
    requires
        l.in_flight.len() <= l.ring.batch_cap,
    ensures
        l.run(ops).ring.cap == l.ring.cap,
        l.run(ops).ring.batch_cap == l.ring.batch_cap,
        l.run(ops).in_flight.len() <= l.ring.batch_cap,
    decreases ops.len(),
{
    if ops.len() > 0 {
        lemma_limits(l, ops.drop_last());
    }
}

/// However they interleave, the ring never holds more than its capacity, no
/// batch is larger than its limit, and both limits stay as they were.
pub proof fn law_capacity_is_kept(cap: nat, batch_cap: nat, ops: Seq<LaneOp>)
    requires
        cap > 0,
        ops.len() < u64::MAX,
    ensures
        ({
            let l = Ledger::start(cap, batch_cap).run(ops);
            &&& l.ring.items.len() <= cap
            &&& l.ring.cap == cap
            &&& l.ring.batch_cap == batch_cap
            &&& l.in_flight.len() <= batch_cap
            &&& l.ring.batch().len() <= batch_cap
        }),
{
    lemma_run(Ledger::start(cap, batch_cap), ops);
    lemma_limits(Ledger::start(cap, batch_cap), ops);
}

proof fn lemma_drains_counted(l: Ledger, ops: Seq<LaneOp>)
    requires
        l.ring.seq == l.drains,
        l.drains + ops.len() <= u64::MAX,
    ensures
        l.run(ops).ring.seq == l.run(ops).drains,
        l.run(ops).drains <= l.drains + ops.len(),
    decreases ops.len(),
{
    if ops.len() > 0 {
        lemma_drains_counted(l, ops.drop_last());
    }
}

/// However they interleave, the number of a drain is the count of drains so
/// far: the first is number one, and giving a batch back changes no number.
pub proof fn law_drains_are_numbered(cap: nat, batch_cap: nat, ops: Seq<LaneOp>)
    requires
        ops.len() <= u64::MAX,
    ensures
        Ledger::start(cap, batch_cap).run(ops).ring.seq == Ledger::start(cap, batch_cap).run(
            ops,
        ).drains,
{
    lemma_drains_counted(Ledger::start(cap, batch_cap), ops);
}

/// The ring with every entry replaced by what it stands for.
pub open spec fn standing_for<T>(r: RingView<nat>, entry: spec_fn(nat) -> T) -> RingView<T> {
    RingView {
        items: r.items.map_values(entry),
        cap: r.cap,
        batch_cap: r.batch_cap,
        dropped: r.dropped,
        seq: r.seq,
    }
}

/// What the entries are does not matter: a ring of samples or lines goes
/// through every step just as the ring of their numbers does, so what holds of
/// the numbers holds of them.
pub proof fn law_numbers_stand_for_entries<T>(
    r: RingView<nat>,
    entry: spec_fn(nat) -> T,
    n: nat,
    batch: Seq<nat>,
    dropped: u64,
)
    ensures
        standing_for(r.recorded(n), entry) == standing_for(r, entry).recorded(entry(n)),
        standing_for(r.drained(), entry) == standing_for(r, entry).drained(),
        r.batch().map_values(entry) == standing_for(r, entry).batch(),
        standing_for(r.requeued(batch, dropped), entry) == standing_for(r, entry).requeued(
            batch.map_values(entry),
            dropped,
        ),
{
    let t = standing_for(r, entry);
    assert(standing_for(r.recorded(n), entry).items =~= t.recorded(entry(n)).items);
    assert(standing_for(r.drained(), entry).items =~= t.drained().items);
    assert(r.batch().map_values(entry) =~= t.batch());
    assert(standing_for(r.requeued(batch, dropped), entry).items =~= t.requeued(
        batch.map_values(entry),
        dropped,
    ).items);
}

/// Giving a batch back right after draining it leaves the ring as it was, but
/// for the number of the drain.
pub proof fn law_requeue_undoes_drain<T>(r: RingView<T>)
    requires
        r.cap > 0,
        r.within_cap(),
    ensures
        r.drained().requeued(r.batch(), r.dropped) == (RingView { seq: counted(r.seq, 1), ..r }),
{
    let back = r.drained().requeued(r.batch(), r.dropped);
    let n = r.batch_len() as int;
    assert(r.items.take(n) + r.items.skip(n) =~= r.items);
    assert(r.batch().skip(0) =~= r.batch());
    assert(back.items =~= r.items);
}

/// A drain reports only what was dropped since the drain before it.
pub proof fn law_dropped_count_resets<T>(r: RingView<T>)
    ensures
        r.drained().dropped == 0,
        r.batch() + r.drained().items == r.items,
{
    assert(r.batch() + r.drained().items =~= r.items);
}

/// The ring after `n` drains in a row.
pub open spec fn drained_times<T>(r: RingView<T>, n: nat) -> RingView<T>
    decreases n,
{
    if n == 0 {
        r
    } else {
        drained_times(r, (n - 1) as nat).drained()
    }
}

/// As many drains as batches fit into the ring's contents empty it.
pub proof fn law_enough_drains_empty_the_ring<T>(r: RingView<T>, n: nat)
    requires
        r.items.len() <= n * r.batch_cap,
    ensures
        drained_times(r, n).items.len() == 0,
{
    lemma_drains(r, n);
}

proof fn lemma_drains<T>(r: RingView<T>, n: nat)
    ensures
        drained_times(r, n).batch_cap == r.batch_cap,
        drained_times(r, n).items.len() == if r.items.len() <= n * r.batch_cap {
            0
        } else {
            r.items.len() - n * r.batch_cap
        },
    decreases n,
{
    let b = r.batch_cap;
    if n > 0 {
        let m = (n - 1) as nat;
        lemma_drains(r, m);
        assert(n * b == m * b + b) by (nonlinear_arith)
            requires
                n == m + 1,
        ;
    }
}

} // verus!
