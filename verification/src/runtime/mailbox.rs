//! Mailbox: a bounded first-in first-out queue of envelopes for one cell.

use crate::signal::{EnvelopeView, SignalEnvelope};
use vstd::prelude::*;

verus! {

/// The default capacity of a mailbox.
pub const DEFAULT_MAILBOX_CAPACITY: usize = 1024;

pub open spec fn views_of(s: Seq<SignalEnvelope>) -> Seq<EnvelopeView> {
    s.map_values(|e: SignalEnvelope| e@)
}

/// A bounded queue; a push to a full mailbox hands the envelope back.
pub struct Mailbox {
    queue: Vec<SignalEnvelope>,
    capacity: usize,
}

impl Mailbox {
    #[verifier::type_invariant]
    closed spec fn inv(self) -> bool {
        self.queue@.len() <= self.capacity
    }

    /// The queued envelopes, oldest first.
    pub closed spec fn queued(&self) -> Seq<EnvelopeView> {
        views_of(self.queue@)
    }

    pub closed spec fn spec_capacity(&self) -> usize {
        self.capacity
    }

    pub fn new(capacity: usize) -> (m: Self)
        ensures
            m.queued() == Seq::<EnvelopeView>::empty(),
            m.spec_capacity() == capacity,
    {
        let m = Mailbox { queue: Vec::new(), capacity };
        assert(m.queued() =~= Seq::<EnvelopeView>::empty());
        m
    }

    pub fn capacity(&self) -> (c: usize)
        ensures
            c == self.spec_capacity(),
    {
        self.capacity
    }

    pub fn len(&self) -> (n: usize)
        ensures
            n == self.queued().len(),
            n <= self.spec_capacity(),
    {
        proof {
            use_type_invariant(self);
        }
        self.queue.len()
    }

    pub fn is_empty(&self) -> (b: bool)
        ensures
            b == (self.queued().len() == 0),
    {
        self.queue.len() == 0
    }

    /// Appends `env` unless the mailbox is full, in which case `env` comes
    /// back unchanged.
    pub fn push(&mut self, env: SignalEnvelope) -> (r: Result<(), SignalEnvelope>)
        ensures
            final(self).spec_capacity() == old(self).spec_capacity(),
            old(self).queued().len() < old(self).spec_capacity() ==> r is Ok && final(self).queued()
                == old(self).queued().push(env@),
            old(self).queued().len() >= old(self).spec_capacity() ==> (r matches Err(e) && e == env)
                && final(self).queued() == old(self).queued(),
    {
        proof {
            use_type_invariant(&*self);
        }
        if self.queue.len() >= self.capacity {
            return Err(env);
        }
        let ghost v = env@;
        let mut queue: Vec<SignalEnvelope> = Vec::new();
        std::mem::swap(&mut queue, &mut self.queue);
        queue.push(env);
        self.queue = queue;
        assert(self.queued() =~= old(self).queued().push(v));
        Ok(())
    }

    /// Takes the oldest envelope.
    pub fn pop(&mut self) -> (r: Option<SignalEnvelope>)
        ensures
            final(self).spec_capacity() == old(self).spec_capacity(),
            old(self).queued().len() == 0 ==> r is None && final(self).queued() == old(self).queued(),
            old(self).queued().len() > 0 ==> (r matches Some(e) && e@ == old(self).queued()[0])
                && final(self).queued() == old(self).queued().drop_first(),
    {
        proof {
            use_type_invariant(&*self);
        }
        if self.queue.len() == 0 {
            return None;
        }
        let mut queue: Vec<SignalEnvelope> = Vec::new();
        std::mem::swap(&mut queue, &mut self.queue);
        let e = queue.remove(0);
        self.queue = queue;
        assert(self.queued() =~= old(self).queued().drop_first());
        Some(e)
    }

    /// Takes every queued envelope, oldest first.
    pub fn drain(&mut self) -> (all: Vec<SignalEnvelope>)
        ensures
            views_of(all@) == old(self).queued(),
            final(self).queued() == Seq::<EnvelopeView>::empty(),
            final(self).spec_capacity() == old(self).spec_capacity(),
    {
        let mut queue: Vec<SignalEnvelope> = Vec::new();
        std::mem::swap(&mut queue, &mut self.queue);
        assert(self.queued() =~= Seq::<EnvelopeView>::empty());
        queue
    }
}

impl Default for Mailbox {
    fn default() -> (m: Self)
        ensures
            m.queued() == Seq::<EnvelopeView>::empty(),
            m.spec_capacity() == DEFAULT_MAILBOX_CAPACITY,
    {
        Mailbox::new(DEFAULT_MAILBOX_CAPACITY)
    }
}

/// Envelopes leave a mailbox in the order they entered: a push never
/// changes which envelope a pop takes next, unless the mailbox was empty,
/// and after that pop the new envelope is still last.
pub proof fn law_mailbox_fifo(queued: Seq<EnvelopeView>, env: EnvelopeView)
    ensures
        queued.push(env).len() > 0,
        queued.len() == 0 ==> queued.push(env)[0] == env && queued.push(env).drop_first() == queued,
        queued.len() > 0 ==> queued.push(env)[0] == queued[0] && queued.push(env).drop_first()
            == queued.drop_first().push(env),
{
    assert(queued.len() > 0 ==> queued.push(env).drop_first() =~= queued.drop_first().push(env));
    assert(queued.len() == 0 ==> queued.push(env).drop_first() =~= queued);
}

} // verus!
