//! A bounded queue that drops its oldest entry rather than refuse a new one,
//! and counts what it drops.

use std::collections::VecDeque;

use vstd::prelude::*;

verus! {

/// What a [`Ring`] holds.
pub struct RingView<T> {
    /// The entries, oldest first.
    pub items: Seq<T>,
    /// How many entries it holds before it drops one.
    pub cap: nat,
    /// How many entries one drain takes out at most.
    pub batch_cap: nat,
    /// Entries dropped since the last drain.
    pub dropped: u64,
    /// The number of the last drain.
    pub seq: u64,
}

/// The 64-bit counter `count` after `by` more events; it wraps around.
pub open spec fn counted(count: u64, by: nat) -> u64 {
    ((count + by) % 0x1_0000_0000_0000_0000) as u64
}

/// The lesser of two sizes.
pub open spec fn least(a: nat, b: nat) -> nat {
    if a <= b {
        a
    } else {
        b
    }
}

impl<T> RingView<T> {
    /// The ring holds no more than it may: its capacity, or one entry where
    /// the capacity is zero.
    pub open spec fn within_cap(self) -> bool {
        self.items.len() <= self.cap || self.items.len() <= 1
    }

    /// The ring once `x` has been recorded.
    pub open spec fn recorded(self, x: T) -> RingView<T> {
        if self.items.len() < self.cap {
            RingView { items: self.items.push(x), ..self }
        } else {
            RingView {
                items: (if self.items.len() == 0 {
                    self.items
                } else {
                    self.items.drop_first()
                }).push(x),
                dropped: counted(self.dropped, 1),
                ..self
            }
        }
    }

    /// How many entries the next drain takes out.
    pub open spec fn batch_len(self) -> nat {
        least(self.items.len(), self.batch_cap)
    }

    /// What the next drain takes out: the oldest entries.
    pub open spec fn batch(self) -> Seq<T> {
        self.items.take(self.batch_len() as int)
    }

    /// The ring once a batch has been drained.
    pub open spec fn drained(self) -> RingView<T> {
        RingView {
            items: self.items.skip(self.batch_len() as int),
            dropped: 0,
            seq: counted(self.seq, 1),
            ..self
        }
    }

    /// How many entries of a batch of `n` fit back into the ring.
    pub open spec fn readmitted(self, n: nat) -> nat {
        least(
            n,
            if self.items.len() < self.cap {
                (self.cap - self.items.len()) as nat
            } else {
                0
            },
        )
    }

    /// The ring once a batch has been put back in front, with the count of
    /// dropped entries that was drained with it. Of a batch that does not fit
    /// the newest entries stay, and the others count as dropped.
    pub open spec fn requeued(self, batch: Seq<T>, dropped: u64) -> RingView<T> {
        let kept = self.readmitted(batch.len());
        let lost = (batch.len() - kept) as nat;
        RingView {
            items: batch.skip(lost as int) + self.items,
            dropped: counted(self.dropped, dropped as nat + lost),
            ..self
        }
    }

    /// An empty ring.
    pub open spec fn empty(cap: nat, batch_cap: nat) -> RingView<T> {
        RingView { items: Seq::empty(), cap, batch_cap, dropped: 0, seq: 0 }
    }
}

/// A bounded first-in first-out queue.
pub struct Ring<T> {
    buf: VecDeque<T>,
    cap: usize,
    batch_cap: usize,
    dropped_overflow: u64,
    seq: u64,
}

impl<T> View for Ring<T> {
    type V = RingView<T>;

    closed spec fn view(&self) -> RingView<T> {
        RingView {
            items: self.buf@,
            cap: self.cap as nat,
            batch_cap: self.batch_cap as nat,
            dropped: self.dropped_overflow,
            seq: self.seq,
        }
    }
}

/// The counter after `by` more events.
fn count_up(count: u64, by: u64) -> (r: u64)
    ensures
        r == counted(count, by as nat),
{
    count.wrapping_add(by)
}

impl<T> Ring<T> {
    /// An empty ring.
    pub fn with_caps(cap: usize, batch_cap: usize) -> (r: Ring<T>)
        ensures
            r@ == RingView::<T>::empty(cap as nat, batch_cap as nat),
            r@.within_cap(),
    {
        Ring { buf: VecDeque::new(), cap, batch_cap, dropped_overflow: 0, seq: 0 }
    }

    /// How many entries the ring holds.
    pub fn len(&self) -> (r: usize)
        ensures
            r == self@.items.len(),
    {
        self.buf.len()
    }

    /// Records one entry. A full ring drops its oldest entry and counts it.
    pub fn record(&mut self, x: T)
        ensures
            final(self)@ == old(self)@.recorded(x),
            old(self)@.within_cap() ==> final(self)@.within_cap(),
    {
        if self.buf.len() >= self.cap {
            let _ = self.buf.pop_front();
            self.dropped_overflow = count_up(self.dropped_overflow, 1);
            assert(old(self)@.items.len() > 0 ==> self.buf@ =~= old(self)@.items.drop_first());
        }
        self.buf.push_back(x);
        assert(self@.items =~= old(self)@.recorded(x).items);
    }

    /// Takes out the oldest entries, as many as one batch holds, and says how
    /// many entries were dropped since the last drain and which drain this is.
    pub fn drain(&mut self) -> (r: (Vec<T>, u64, u64))
        ensures
            r.0@ == old(self)@.batch(),
            r.1 == old(self)@.dropped,
            r.2 == final(self)@.seq,
            final(self)@ == old(self)@.drained(),
            old(self)@.within_cap() ==> final(self)@.within_cap(),
    {
        let n: usize = if self.buf.len() <= self.batch_cap {
            self.buf.len()
        } else {
            self.batch_cap
        };
        let mut batch: Vec<T> = Vec::new();
        let mut taken: usize = 0;
        let ghost before = self.buf@;
        while taken < n
            invariant
                taken <= n <= before.len(),
                batch@ == before.take(taken as int),
                self.buf@ == before.skip(taken as int),
                self.cap == old(self).cap,
                self.batch_cap == old(self).batch_cap,
                self.dropped_overflow == old(self).dropped_overflow,
                self.seq == old(self).seq,
            decreases n - taken,
        {
            match self.buf.pop_front() {
                Some(x) => {
                    batch.push(x);
                    assert(before.take(taken + 1) =~= before.take(taken as int).push(x));
                    assert(before.skip(taken as int).subrange(1, before.len() - taken)
                        =~= before.skip(taken + 1));
                },
                None => {
                    assert(false);
                },
            }
            taken = taken + 1;
        }
        let dropped: u64 = self.dropped_overflow;
        self.dropped_overflow = 0;
        self.seq = count_up(self.seq, 1);
        (batch, dropped, self.seq)
    }

    /// Puts a drained batch back in front, oldest first, and restores its
    /// dropped count. Entries that no longer fit are counted as dropped.
    pub fn requeue_front(&mut self, batch: Vec<T>, dropped: u64)
        ensures
            final(self)@ == old(self)@.requeued(batch@, dropped),
            old(self)@.within_cap() ==> final(self)@.within_cap(),
    {
        let mut rest: Vec<T> = batch;
        assert(batch@.skip(rest@.len() as int) + old(self)@.items =~= self.buf@);
        while rest.len() > 0 && self.buf.len() < self.cap
            invariant
                rest@.len() <= batch@.len(),
                rest@ == batch@.take(rest@.len() as int),
                self.buf@ == batch@.skip(rest@.len() as int) + old(self)@.items,
                batch@.len() - rest@.len() <= old(self)@.readmitted(batch@.len()),
                self.cap == old(self).cap,
                self.batch_cap == old(self).batch_cap,
                self.dropped_overflow == old(self).dropped_overflow,
                self.seq == old(self).seq,
            decreases rest@.len(),
        {
            let ghost k = rest@.len();
            match rest.pop() {
                Some(x) => {
                    self.buf.push_front(x);
                    assert(seq![x] + batch@.skip(k as int) =~= batch@.skip(k - 1));
                    assert(rest@ =~= batch@.take(k - 1));
                    assert(self.buf@ =~= batch@.skip(k - 1) + old(self)@.items);
                },
                None => {
                    assert(false);
                },
            }
        }
        let overflowed: u64 = rest.len() as u64;
        self.dropped_overflow = count_up(count_up(self.dropped_overflow, dropped), overflowed);
    }
}

/// A counter counts every event, and wraps only past the end of its 64 bits.
pub proof fn law_counter_counts_every_event(count: u64, by: nat)
    ensures
        count + by <= u64::MAX ==> counted(count, by) == count + by,
        (count + by - counted(count, by)) % 0x1_0000_0000_0000_0000 == 0,
{
}

/// Recording keeps the newest entry, and of the older ones as many as fit, the
/// youngest. An entry is lost only where there is no room, and then it is
/// counted. Limits and numbering do not change.
pub proof fn law_recording_keeps_the_newest<T>(r: RingView<T>, x: T)
    ensures
        r.recorded(x).items.last() == x,
        r.items.len() < r.cap ==> r.recorded(x).items == r.items.push(x) && r.recorded(x).dropped
            == r.dropped,
        r.items.len() >= r.cap && r.items.len() > 0 ==> r.recorded(x).items == r.items.push(
            x,
        ).skip(1),
        r.items.len() >= r.cap && r.dropped < u64::MAX ==> r.recorded(x).dropped == r.dropped + 1,
        r.recorded(x).cap == r.cap,
        r.recorded(x).batch_cap == r.batch_cap,
        r.recorded(x).seq == r.seq,
{
    if r.items.len() >= r.cap && r.items.len() > 0 {
        assert(r.recorded(x).items =~= r.items.push(x).skip(1));
    }
}

/// A drain takes the oldest entries out, a full batch of them or all there are,
/// leaves the others in order, and starts the count of drops anew.
pub proof fn law_drain_takes_the_oldest<T>(r: RingView<T>)
    ensures
        r.batch() + r.drained().items == r.items,
        r.batch().len() <= r.batch_cap,
        r.batch().len() == r.batch_cap || r.drained().items.len() == 0,
        r.drained().dropped == 0,
        r.seq < u64::MAX ==> r.drained().seq == r.seq + 1,
        r.drained().cap == r.cap,
        r.drained().batch_cap == r.batch_cap,
{
    assert(r.batch() + r.drained().items =~= r.items);
}

/// Giving a batch back puts it in front of what came since. Nothing of what came
/// since is lost; of the batch the newest entries stay, as many as fit; and each
/// of the others is counted as dropped, on top of the count given back.
pub proof fn law_given_back_batch_goes_in_front<T>(r: RingView<T>, batch: Seq<T>, dropped: u64)
    ensures
        ({
            let after = r.requeued(batch, dropped);
            let lost = batch.len() + r.items.len() - after.items.len();
            &&& 0 <= lost <= batch.len()
            &&& after.items == (batch + r.items).skip(lost)
            &&& lost > 0 ==> after.items.len() == if r.items.len() < r.cap {
                r.cap
            } else {
                r.items.len()
            }
            &&& r.items.len() + batch.len() <= r.cap ==> lost == 0
            &&& r.items.len() < r.cap ==> after.items.len() <= r.cap
            &&& r.dropped + dropped + lost <= u64::MAX ==> after.dropped == r.dropped + dropped + lost
            &&& after.seq == r.seq
            &&& after.cap == r.cap
            &&& after.batch_cap == r.batch_cap
        }),
{
    let after = r.requeued(batch, dropped);
    let lost = batch.len() - r.readmitted(batch.len());
    assert((batch + r.items).skip(lost) =~= batch.skip(lost) + r.items);
}

/// A new ring holds nothing, has lost nothing and was never drained.
pub proof fn law_new_ring_is_empty<T>(cap: nat, batch_cap: nat)
    ensures
        RingView::<T>::empty(cap, batch_cap).items.len() == 0,
        RingView::<T>::empty(cap, batch_cap).dropped == 0,
        RingView::<T>::empty(cap, batch_cap).seq == 0,
        RingView::<T>::empty(cap, batch_cap).cap == cap,
        RingView::<T>::empty(cap, batch_cap).batch_cap == batch_cap,
{
}

/// The lesser of two sizes is one of them, and neither is below it.
pub proof fn law_least_is_a_lower_bound(a: nat, b: nat)
    ensures
        least(a, b) == a || least(a, b) == b,
        least(a, b) <= a,
        least(a, b) <= b,
{
}

} // verus!
