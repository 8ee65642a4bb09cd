//! A sender that gathers single items into batches and forwards each batch as
//! one message.
//!
//! A sender has one owner. Producers on several threads share it behind a
//! lock, so that whatever they do together is some sequence of the calls
//! below, and what is stated of every sequence holds of them.

use vstd::prelude::*;
use crate::sources::pipeline::CountingVecSender;
use crate::sources::pipeline::Undelivered;

verus! {

/// What a batching sender has done and holds: the batches the channel took
/// from it, oldest first, and the items still waiting.
pub struct SenderState<T> {
    pub delivered: Seq<Seq<T>>,
    pub pending: Seq<T>,
}

impl<T> SenderState<T> {
    /// Every item that is in a delivered batch or waiting, in the order of
    /// acceptance.
    pub open spec fn items(self) -> Seq<T> {
        self.delivered.flatten() + self.pending
    }

    /// The state after one more item was accepted and every send succeeded:
    /// the item joins those waiting, and once `threshold` or more wait they
    /// leave together as one batch.
    pub open spec fn add(self, threshold: nat, item: T) -> SenderState<T> {
        let waiting = self.pending.push(item);
        if waiting.len() >= threshold {
            SenderState { delivered: self.delivered.push(waiting), pending: Seq::empty() }
        } else {
            SenderState { delivered: self.delivered, pending: waiting }
        }
    }

    /// The state after a flush that succeeded: those waiting, if any, leave
    /// as one batch.
    pub open spec fn flush(self) -> SenderState<T> {
        if self.pending.len() == 0 {
            self
        } else {
            SenderState { delivered: self.delivered.push(self.pending), pending: Seq::empty() }
        }
    }

    /// Whether accepting `items` in turn stopped at the item of index `n`
    /// because the batch that it completed could not be sent: all before
    /// were accepted, `returned` is the batch that came back, which had
    /// reached the threshold, and `end` is the state in which that left
    /// the sender.
    pub open spec fn stopped_at(
        self,
        threshold: nat,
        items: Seq<T>,
        n: int,
        returned: Seq<T>,
        end: SenderState<T>,
    ) -> bool {
        let before = self.add_all(threshold, items.take(n));
        &&& 0 <= n < items.len()
        &&& returned == before.pending.push(items[n])
        &&& returned.len() >= threshold
        &&& end.pending == Seq::<T>::empty()
        &&& end.delivered == before.delivered
    }

    /// The state after each of `items` was accepted in turn.
    pub open spec fn add_all(self, threshold: nat, items: Seq<T>) -> SenderState<T>
        decreases items.len(),
    {
        if items.len() == 0 {
            self
        } else {
            self.add_all(threshold, items.drop_last()).add(threshold, items.last())
        }
    }
}

/// Gathers items and forwards them in batches of `threshold` or more.
#[verifier::reject_recursive_types(T)]
pub struct BatchSender<'a, T> {
    buffer: Vec<T>,
    threshold: usize,
    tx: CountingVecSender<'a, T>,
}

impl<'a, T> View for BatchSender<'a, T> {
    type V = SenderState<T>;

    closed spec fn view(&self) -> SenderState<T> {
        SenderState { delivered: self.tx.delivered(), pending: self.buffer@ }
    }
}

impl<'a, T> BatchSender<'a, T> {
    /// The number of waiting items at which a batch is sent.
    pub closed spec fn threshold(&self) -> nat {
        self.threshold as nat
    }

    pub fn new(threshold: usize, tx: CountingVecSender<'a, T>) -> (r: Self)
        ensures
            r.threshold() == threshold,
            r@.delivered == tx.delivered(),
            r@.pending == Seq::<T>::empty(),
    {
        BatchSender { buffer: Vec::new(), threshold, tx }
    }

    /// Accepts `item`. Where fewer than the threshold wait afterwards, nothing
    /// is sent and the call succeeds. Otherwise all that wait are sent as one
    /// batch: on success that batch is the newest delivered one; on failure
    /// it comes back in the error, the accepted item included.
    pub fn add(&mut self, item: T) -> (r: Result<(), Undelivered<T>>)
        ensures
            final(self).threshold() == old(self).threshold(),
            r is Ok ==> final(self)@ == old(self)@.add(old(self).threshold(), item),
            r matches Err(e) ==> {
                &&& e.batch@ == old(self)@.pending.push(item)
                &&& final(self)@.pending == Seq::<T>::empty()
                &&& final(self)@.delivered == old(self)@.delivered
            },
            old(self)@.pending.len() + 1 < old(self).threshold() ==> r is Ok,
    {
        self.buffer.push(item);
        if self.buffer.len() >= self.threshold {
            self.flush(false)
        } else {
            Ok(())
        }
    }

    /// Sends all that wait as one batch, if any item waits. The sender has
    /// one owner, so no other flush can be under way and `wait_for_lock`
    /// decides nothing.
    pub fn flush(&mut self, wait_for_lock: bool) -> (r: Result<(), Undelivered<T>>)
        ensures
            final(self).threshold() == old(self).threshold(),
            r is Ok ==> final(self)@ == old(self)@.flush(),
            r matches Err(e) ==> {
                &&& e.batch@ == old(self)@.pending
                &&& final(self)@.pending == Seq::<T>::empty()
                &&& final(self)@.delivered == old(self)@.delivered
            },
            old(self)@.pending.len() == 0 ==> r is Ok,
    {
        if self.buffer.len() == 0 {
            return Ok(());
        }
        let mut output: Vec<T> = Vec::new();
        std::mem::swap(&mut self.buffer, &mut output);
        self.tx.send(output)
    }

    /// Accepts every one of `items` in turn. Where fewer than the threshold
    /// wait after all of them, nothing is sent and the call succeeds. The
    /// first send that fails ends the call: the batch that could not be sent
    /// comes back, and the items behind it are dropped unaccepted.
    pub fn add_all(&mut self, items: Vec<T>) -> (r: Result<(), Undelivered<T>>)
        ensures
            final(self).threshold() == old(self).threshold(),
            r is Ok ==> final(self)@ == old(self)@.add_all(old(self).threshold(), items@),
            old(self)@.pending.len() + items@.len() < old(self).threshold() ==> r is Ok,
            r matches Err(e) ==> exists|n: int|
                #[trigger] old(self)@.stopped_at(
                    old(self).threshold(),
                    items@,
                    n,
                    e.batch@,
                    final(self)@,
                ),
    {
        let ghost all = items@;
        let ghost start = self@;
        let ghost threshold = self.threshold();
        for item in it: items
            invariant
                it.seq() == all,
                self.threshold() == threshold,
                threshold == old(self).threshold(),
                start == old(self)@,
                all == items@,
                self@ == start.add_all(threshold, all.take(it.index() as int)),
                start.pending.len() + all.len() < threshold ==> self@.pending.len()
                    == start.pending.len() + it.index(),
        {
            proof {
                assert(all.take(it.index() + 1).drop_last() == all.take(it.index() as int));
            }
            match self.add(item) {
                Ok(()) => {},
                Err(e) => {
                    proof {
                        assert(start.stopped_at(
                            threshold,
                            all,
                            it.index() as int,
                            e.batch@,
                            self@,
                        ));
                    }
                    return Err(e);
                },
            }
        }
        proof {
            assert(all.take(all.len() as int) == all);
        }
        Ok(())
    }

    /// Flushes for the last time and gives up the channel end. This is what
    /// must happen when a sender goes away, so that no accepted item is lost.
    pub fn finish(self) -> (r: (CountingVecSender<'a, T>, Result<(), Undelivered<T>>))
        ensures
            r.1 is Ok ==> r.0.delivered() == self@.flush().delivered,
            r.1 matches Err(e) ==> e.batch@ == self@.pending && r.0.delivered()
                == self@.delivered,
            self@.pending.len() == 0 ==> r.1 is Ok,
    {
        let mut this = self;
        let r = this.flush(true);
        (this.tx, r)
    }
}

/// `items` cut into batches of `size`, the last of which may be shorter.
pub open spec fn batches_of<T>(items: Seq<T>, size: nat) -> Seq<Seq<T>>
    decreases items.len(),
{
    if items.len() == 0 || size == 0 {
        Seq::empty()
    } else if items.len() <= size {
        seq![items]
    } else {
        seq![items.take(size as int)] + batches_of(items.skip(size as int), size)
    }
}

/// Cuts `items` into batches of `size`, the last of which may be shorter.
pub fn into_batches<T>(items: Vec<T>, size: usize) -> (r: Vec<Vec<T>>)
    requires
        size > 0,
    ensures
        r@.map_values(|b: Vec<T>| b@) == batches_of(items@, size as nat),
{
    let mut out: Vec<Vec<T>> = Vec::new();
    let mut current: Vec<T> = Vec::new();
    let ghost all = items@;
    proof {
        assert(all.skip(0) == all);
        assert(out@.map_values(|b: Vec<T>| b@) + batches_of(all, size as nat) == batches_of(
            all,
            size as nat,
        ));
    }
    let ghost mut done: int = 0;
    for item in it: items
        invariant
            it.seq() == all,
            size > 0,
            0 <= done <= it.index(),
            current@.len() < size,
            current@ == all.subrange(done, it.index() as int),
            out@.map_values(|b: Vec<T>| b@) + batches_of(all.skip(done), size as nat)
                == batches_of(all, size as nat),
    {
        current.push(item);
        if current.len() == size {
            let mut full: Vec<T> = Vec::new();
            std::mem::swap(&mut current, &mut full);
            proof {
                let rest = all.skip(done);
                assert(rest.take(size as int) == full@);
                assert(rest.skip(size as int) == all.skip(done + size));
                let views = out@.map_values(|b: Vec<T>| b@);
                if rest.len() <= size {
                    assert(rest == full@);
                    assert(all.skip(done + size).len() == 0);
                    assert(batches_of(rest, size as nat) == seq![full@] + batches_of(
                        all.skip(done + size),
                        size as nat,
                    ));
                }
                assert(out@.push(full).map_values(|b: Vec<T>| b@) == views.push(full@));
                assert(views.push(full@) + batches_of(all.skip(done + size), size as nat) == views
                    + (seq![full@] + batches_of(all.skip(done + size), size as nat)));
                done = done + size;
            }
            out.push(full);
        }
    }
    if current.len() > 0 {
        proof {
            let rest = all.skip(done);
            assert(rest == current@);
            let views = out@.map_values(|b: Vec<T>| b@);
            assert(out@.push(current).map_values(|b: Vec<T>| b@) == views.push(current@));
            assert(views.push(current@) == views + seq![current@]);
        }
        out.push(current);
    } else {
        proof {
            assert(all.skip(done).len() == 0);
            let views = out@.map_values(|b: Vec<T>| b@);
            assert(views + Seq::<Seq<T>>::empty() == views);
        }
    }
    out
}

/// Flattening keeps the items of a further batch behind all earlier ones.
pub proof fn lemma_flatten_push<T>(batches: Seq<Seq<T>>, batch: Seq<T>)
    ensures
        batches.push(batch).flatten() == batches.flatten() + batch,
{
    batches.lemma_flatten_push(batch);
}

/// Accepting an item neither loses nor repeats anything: afterwards the
/// delivered batches and the waiting items hold, in order, what they held
/// before and then the new item.
pub proof fn lemma_add_conserves<T>(s: SenderState<T>, threshold: nat, item: T)
    ensures
        s.add(threshold, item).items() == s.items().push(item),
{
    let waiting = s.pending.push(item);
    if waiting.len() >= threshold {
        lemma_flatten_push(s.delivered, waiting);
        assert(s.delivered.flatten() + waiting + Seq::<T>::empty() == (s.delivered.flatten()
            + s.pending).push(item));
    } else {
        assert(s.delivered.flatten() + waiting == (s.delivered.flatten() + s.pending).push(item));
    }
}

/// A flush neither loses nor repeats anything.
pub proof fn lemma_flush_conserves<T>(s: SenderState<T>)
    ensures
        s.flush().items() == s.items(),
        s.flush().pending.len() == 0,
{
    if s.pending.len() > 0 {
        lemma_flatten_push(s.delivered, s.pending);
        assert(s.delivered.flatten() + s.pending + Seq::<T>::empty() == s.delivered.flatten()
            + s.pending);
    } else {
        assert(s.pending == Seq::<T>::empty());
    }
}

/// Every accepted item ends up in exactly one batch: after any sequence of
/// accepted items and a last flush, nothing waits and the delivered batches,
/// read one after the other, are the earlier ones followed by exactly the
/// accepted items, each once and in the order of acceptance.
pub proof fn lemma_every_item_in_one_batch<T>(s: SenderState<T>, threshold: nat, items: Seq<T>)
    ensures
        s.add_all(threshold, items).items() == s.items() + items,
        s.add_all(threshold, items).flush().pending.len() == 0,
        s.add_all(threshold, items).flush().delivered.flatten() == s.items() + items,
    decreases items.len(),
{
    if items.len() == 0 {
        assert(s.items() + items == s.items());
    } else {
        let before = s.add_all(threshold, items.drop_last());
        lemma_every_item_in_one_batch(s, threshold, items.drop_last());
        lemma_add_conserves(before, threshold, items.last());
        assert((s.items() + items.drop_last()).push(items.last()) == s.items() + items) by {
            assert(items == items.drop_last().push(items.last()));
        }
    }
    let end = s.add_all(threshold, items);
    lemma_flush_conserves(end);
    assert(end.flush().items() == end.flush().delivered.flatten());
}

/// While fewer than the threshold wait, accepting an item keeps it so, and a
/// batch that leaves holds exactly `threshold` items.
pub proof fn lemma_batches_reach_threshold<T>(s: SenderState<T>, threshold: nat, item: T)
    requires
        s.pending.len() < threshold,
    ensures
        s.add(threshold, item).pending.len() < threshold,
        s.add(threshold, item).delivered.len() > s.delivered.len() ==> s.add(
            threshold,
            item,
        ).delivered.last().len() == threshold,
{
}

} // verus!
