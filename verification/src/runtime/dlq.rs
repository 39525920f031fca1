//! Dead letter queue: a bounded record of messages that could not be
//! delivered, with the reason and the time each was given up.

use crate::signal::{EnvelopeView, KernelError, KernelErrorView, SignalEnvelope};
use crate::text::{decimal, owned, u64_to_decimal};
use vstd::prelude::*;

verus! {

/// The default capacity of a dead letter queue.
pub const DEFAULT_DLQ_CAPACITY: usize = 1000;

/// An undeliverable message.
#[derive(Debug)]
pub struct DeadLetter {
    pub envelope: SignalEnvelope,
    pub reason: String,
    pub timestamp_ns: u64,
}

/// A dead letter as plain values.
pub struct LetterView {
    pub envelope: EnvelopeView,
    pub reason: Seq<char>,
    pub timestamp_ns: u64,
}

impl View for DeadLetter {
    type V = LetterView;

    open spec fn view(&self) -> LetterView {
        LetterView { envelope: self.envelope@, reason: self.reason@, timestamp_ns: self.timestamp_ns }
    }
}

impl Clone for DeadLetter {
    fn clone(&self) -> (r: Self)
        ensures
            r@ == self@,
    {
        DeadLetter {
            envelope: self.envelope.clone(),
            reason: self.reason.clone(),
            timestamp_ns: self.timestamp_ns,
        }
    }
}

pub open spec fn letter_views(s: Seq<DeadLetter>) -> Seq<LetterView> {
    s.map_values(|l: DeadLetter| l@)
}

/// The error of a full queue.
pub open spec fn dlq_full_error(capacity: usize) -> KernelErrorView {
    KernelErrorView::ResourceExhausted {
        resource: "dlq capacity "@ + decimal(capacity as nat) + " exceeded"@,
        cell_id: "dlq"@,
    }
}

/// The newest `capacity` letters of `s` (all of them when there are no
/// more than that).
pub open spec fn newest(s: Seq<LetterView>, capacity: usize) -> Seq<LetterView> {
    if s.len() <= capacity {
        s
    } else {
        s.skip(s.len() - capacity)
    }
}

/// The letters after one for `envelope` and `reason`, stamped `now_ns`,
/// joins `before` in a queue of `capacity`.
pub open spec fn after_enqueue(
    before: Seq<LetterView>,
    capacity: usize,
    envelope: EnvelopeView,
    reason: Seq<char>,
    now_ns: u64,
) -> Seq<LetterView> {
    newest(before.push(LetterView { envelope, reason, timestamp_ns: now_ns }), capacity)
}

/// A bounded queue of dead letters; a full queue drops its oldest letter
/// to take a new one, and says that it was full.
pub struct DeadLetterQueue {
    letters: Vec<DeadLetter>,
    capacity: usize,
}

impl DeadLetterQueue {
    /// The letters, oldest first.
    pub closed spec fn letters(&self) -> Seq<LetterView> {
        letter_views(self.letters@)
    }

    pub closed spec fn spec_capacity(&self) -> usize {
        self.capacity
    }

    pub fn new(capacity: usize) -> (q: Self)
        ensures
            q.letters() == Seq::<LetterView>::empty(),
            q.spec_capacity() == capacity,
    {
        let q = DeadLetterQueue { letters: Vec::new(), capacity };
        assert(q.letters() =~= Seq::<LetterView>::empty());
        q
    }

    /// Records `envelope` as undeliverable for `reason` at `now_ns`. A full
    /// queue drops its oldest letters to keep within its capacity and
    /// reports the overflow as an error; the new letter is kept all the
    /// same.
    pub fn enqueue_at(&mut self, envelope: SignalEnvelope, reason: &str, now_ns: u64) -> (r: Result<
        (),
        KernelError,
    >)
        ensures
            final(self).spec_capacity() == old(self).spec_capacity(),
            final(self).letters() == after_enqueue(
                old(self).letters(),
                old(self).spec_capacity(),
                envelope@,
                reason@,
                now_ns,
            ),
            old(self).letters().len() < old(self).spec_capacity() ==> r is Ok,
            old(self).letters().len() >= old(self).spec_capacity() ==> (r matches Err(e) && e@
                == dlq_full_error(old(self).spec_capacity())),
    {
        let len0 = self.letters.len();
        let full = len0 >= self.capacity;
        let letter = DeadLetter { envelope, reason: owned(reason), timestamp_ns: now_ns };
        let ghost lv = letter@;
        let ghost all = old(self).letters().push(lv);
        self.letters.push(letter);
        assert(self.letters() =~= all);
        let ghost mut dropped: int = 0;
        while self.letters.len() > self.capacity
            invariant
                self.capacity == old(self).capacity,
                all.len() == len0 + 1,
                0 <= dropped <= all.len(),
                self.letters() == all.skip(dropped),
                self.letters@.len() == all.len() - dropped,
                all.len() - dropped >= self.capacity || dropped == 0,
            decreases self.letters@.len(),
        {
            let ghost before = self.letters@;
            self.letters.remove(0);
            assert forall|i: int| 0 <= i < self.letters@.len() implies #[trigger] self.letters@[i]@
                == all.skip(dropped + 1)[i] by {
                assert(self.letters@[i] == before[i + 1]);
                assert(letter_views(before)[i + 1] == all.skip(dropped)[i + 1]);
            }
            assert(letter_views(self.letters@) =~= all.skip(dropped + 1));
            proof {
                dropped = dropped + 1;
            }
        }
        assert(self.letters() =~= newest(all, self.capacity));
        if full {
            proof {
                reveal_strlit("dlq capacity ");
                reveal_strlit(" exceeded");
                reveal_strlit("dlq");
            }
            let mut resource = owned("dlq capacity ");
            resource.append(u64_to_decimal(self.capacity as u64).as_str());
            resource.append(" exceeded");
            return Err(KernelError::ResourceExhausted { resource, cell_id: owned("dlq") });
        }
        Ok(())
    }

    /// Records `envelope` as undeliverable for `reason`, stamped with the
    /// current time, as `enqueue_at` does.
    pub fn enqueue(&mut self, envelope: SignalEnvelope, reason: &str) -> (r: Result<(), KernelError>)
        ensures
            final(self).spec_capacity() == old(self).spec_capacity(),
            exists|now: u64|
                final(self).letters() == #[trigger] after_enqueue(
                    old(self).letters(),
                    old(self).spec_capacity(),
                    envelope@,
                    reason@,
                    now,
                ),
            old(self).letters().len() < old(self).spec_capacity() ==> r is Ok,
            old(self).letters().len() >= old(self).spec_capacity() ==> (r matches Err(e) && e@
                == dlq_full_error(old(self).spec_capacity())),
    {
        let now = crate::clock::unix_time_ns();
        self.enqueue_at(envelope, reason, now)
    }

    pub fn len(&self) -> (n: usize)
        ensures
            n == self.letters().len(),
    {
        self.letters.len()
    }

    pub fn is_empty(&self) -> (b: bool)
        ensures
            b == (self.letters().len() == 0),
    {
        self.letters.len() == 0
    }

    /// Takes every letter, oldest first.
    pub fn drain(&mut self) -> (all: Vec<DeadLetter>)
        ensures
            letter_views(all@) == old(self).letters(),
            final(self).letters() == Seq::<LetterView>::empty(),
            final(self).spec_capacity() == old(self).spec_capacity(),
    {
        let mut all: Vec<DeadLetter> = Vec::new();
        std::mem::swap(&mut all, &mut self.letters);
        assert(self.letters() =~= Seq::<LetterView>::empty());
        all
    }

    /// A copy of every letter, oldest first.
    pub fn peek_all(&self) -> (all: Vec<DeadLetter>)
        ensures
            letter_views(all@) == self.letters(),
    {
        let mut all: Vec<DeadLetter> = Vec::new();
        let mut i: usize = 0;
        while i < self.letters.len()
            invariant
                i <= self.letters@.len(),
                letter_views(all@) == letter_views(self.letters@).take(i as int),
                all@.len() == i,
            decreases self.letters@.len() - i,
        {
            let ghost before = all@;
            let c = self.letters[i].clone();
            let ghost cv = c@;
            all.push(c);
            assert(all@ == before.push(c));
            assert(letter_views(all@) =~= letter_views(before).push(cv));
            assert(letter_views(all@) =~= letter_views(self.letters@).take(i + 1));
            i = i + 1;
        }
        assert(letter_views(self.letters@).take(i as int) =~= letter_views(self.letters@));
        all
    }
}

/// A queue below its capacity keeps every letter and appends the new one;
/// a full queue (of capacity at least one) drops exactly its oldest letter
/// and appends the new one, so it stays full.
pub proof fn law_full_queue_drops_oldest(
    before: Seq<LetterView>,
    capacity: usize,
    envelope: EnvelopeView,
    reason: Seq<char>,
    now_ns: u64,
)
    requires
        before.len() <= capacity,
    ensures
        before.len() < capacity ==> after_enqueue(before, capacity, envelope, reason, now_ns)
            == before.push(LetterView { envelope, reason, timestamp_ns: now_ns }),
        before.len() == capacity && capacity >= 1 ==> after_enqueue(
            before,
            capacity,
            envelope,
            reason,
            now_ns,
        ) == before.drop_first().push(LetterView { envelope, reason, timestamp_ns: now_ns }),
        after_enqueue(before, capacity, envelope, reason, now_ns).len() <= capacity,
{
    let l = LetterView { envelope, reason, timestamp_ns: now_ns };
    if before.len() == capacity && capacity >= 1 {
        assert(before.push(l).skip(1) =~= before.drop_first().push(l));
    }
}

impl Default for DeadLetterQueue {
    fn default() -> (q: Self)
        ensures
            q.letters() == Seq::<LetterView>::empty(),
            q.spec_capacity() == DEFAULT_DLQ_CAPACITY,
    {
        DeadLetterQueue::new(DEFAULT_DLQ_CAPACITY)
    }
}

} // verus!
