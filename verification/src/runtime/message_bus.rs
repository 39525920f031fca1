//! The message bus: every envelope passes the layer rule and the
//! interceptor chain, then goes to the mailboxes its routing names.

use crate::runtime::bus::{route, BusInterceptor, InterceptDecision, RoutingTable};
use crate::runtime::guardian::{wrapping_inc, wrapping_inc_exec};
use crate::runtime::interceptors::MAX_HOPS;
use crate::runtime::mailbox::Mailbox;
use crate::signal::{may_send, EnvelopeView, KernelError, KernelErrorView, Layer, SignalEnvelope};
use crate::strmap::StrMap;
use crate::text::owned;
use vstd::prelude::*;

verus! {

/// A mailbox as plain values.
pub struct BoxView {
    pub queued: Seq<EnvelopeView>,
    pub capacity: usize,
}

pub open spec fn mailbox_view(m: Mailbox) -> BoxView {
    BoxView { queued: m.queued(), capacity: m.spec_capacity() }
}

/// Delivering `env` to each of `targets` in turn: a registered mailbox
/// with room takes it and counts once; a full or unknown one drops it.
pub open spec fn deliver_to(
    boxes: Map<Seq<char>, BoxView>,
    targets: Seq<Seq<char>>,
    env: EnvelopeView,
) -> (Map<Seq<char>, BoxView>, nat)
    decreases targets.len(),
{
    if targets.len() == 0 {
        (boxes, 0)
    } else {
        let (b, n) = deliver_to(boxes, targets.drop_last(), env);
        let t = targets.last();
        if b.contains_key(t) && b[t].queued.len() < b[t].capacity {
            (b.insert(t, BoxView { queued: b[t].queued.push(env), capacity: b[t].capacity }), n + 1)
        } else {
            (b, n)
        }
    }
}

/// `c` after `n` wrapping increments.
pub open spec fn wrapping_add_times(c: u64, n: nat) -> u64
    decreases n,
{
    if n == 0 {
        c
    } else {
        wrapping_inc(wrapping_add_times(c, (n - 1) as nat))
    }
}

/// The bus as plain values (its interceptors aside).
pub struct BusView {
    pub boxes: Map<Seq<char>, BoxView>,
    pub cells: Set<Seq<char>>,
    pub subscriptions: Seq<(Layer, Seq<char>)>,
    pub rejected: u64,
    pub delivered: u64,
}

/// Delivery of an envelope that has passed the chain: refused beyond the
/// hop limit, otherwise handed to every routed mailbox with room.
pub open spec fn delivery_outcome(
    before: BusView,
    after: BusView,
    env: EnvelopeView,
    r: Result<u64, KernelError>,
) -> bool {
    if env.hop_count > MAX_HOPS {
        &&& r matches Err(e) && e@ == (KernelErrorView::HandoffLimitExceeded {
            msg_id: env.msg_id,
            hops: env.hop_count,
            correlation_id: env.correlation_id,
        })
        &&& after == before
    } else {
        let (b, n) = deliver_to(before.boxes, route(before.cells, before.subscriptions, env), env);
        &&& r matches Ok(k) && k == n
        &&& after == BusView { boxes: b, delivered: wrapping_add_times(before.delivered, n), ..before }
    }
}

/// `b` is `a` with possibly another target cell.
pub open spec fn redirected(a: EnvelopeView, b: EnvelopeView) -> bool {
    b == EnvelopeView { target_cell: b.target_cell, ..a }
}

/// Cells with mailboxes, their routing, and the interceptor chain.
pub struct MessageBus {
    cells: StrMap<Mailbox>,
    routing: RoutingTable,
    interceptors: Vec<Box<dyn BusInterceptor>>,
    rejected_count: u64,
    delivered_count: u64,
}

impl View for MessageBus {
    type V = BusView;

    closed spec fn view(&self) -> BusView {
        BusView {
            boxes: self.cells@.map_values(|m: Mailbox| mailbox_view(m)),
            cells: self.routing.cells(),
            subscriptions: self.routing.subscriptions(),
            rejected: self.rejected_count,
            delivered: self.delivered_count,
        }
    }
}

impl MessageBus {
    /// The number of interceptors in the chain.
    pub closed spec fn chain_len(&self) -> nat {
        self.interceptors@.len()
    }

    /// The interceptors in the order they run.
    pub closed spec fn chain(&self) -> Seq<Box<dyn BusInterceptor>> {
        self.interceptors@
    }

    pub fn new() -> (b: Self)
        ensures
            b@.boxes == Map::<Seq<char>, BoxView>::empty(),
            b@.cells == Set::<Seq<char>>::empty(),
            b@.subscriptions == Seq::<(Layer, Seq<char>)>::empty(),
            b@.rejected == 0,
            b@.delivered == 0,
            b.chain_len() == 0,
    {
        let b = MessageBus {
            cells: StrMap::new(),
            routing: RoutingTable::new(),
            interceptors: Vec::new(),
            rejected_count: 0,
            delivered_count: 0,
        };
        assert(b@.boxes =~= Map::<Seq<char>, BoxView>::empty());
        b
    }

    /// Appends `interceptor` to the chain.
    pub fn register_interceptor(&mut self, interceptor: Box<dyn BusInterceptor>)
        ensures
            final(self)@ == old(self)@,
            final(self).chain() == old(self).chain().push(interceptor),
            final(self).chain_len() == old(self).chain_len() + 1,
    {
        self.interceptors.push(interceptor);
        proof {
            vstd::seq::axiom_seq_push_len(old(self).interceptors@, interceptor);
        }
    }

    /// Gives `cell_id` the mailbox `mailbox` and subscribes it to `layer`.
    pub fn register_cell(&mut self, cell_id: &str, mailbox: Mailbox, layer: Layer)
        ensures
            final(self)@ == (BusView {
                boxes: old(self)@.boxes.insert(cell_id@, mailbox_view(mailbox)),
                cells: old(self)@.cells.insert(cell_id@),
                subscriptions: old(self)@.subscriptions.push((layer, cell_id@)),
                ..old(self)@
            }),
            final(self).chain_len() == old(self).chain_len(),
    {
        let ghost mv = mailbox_view(mailbox);
        self.cells.insert(owned(cell_id), mailbox);
        self.routing.register_cell(cell_id, layer);
        assert(self@.boxes =~= old(self)@.boxes.insert(cell_id@, mv));
    }

    /// Delivers an envelope that has passed the chain.
    pub fn deliver(&mut self, env: &SignalEnvelope) -> (r: Result<u64, KernelError>)
        ensures
            delivery_outcome(old(self)@, final(self)@, env@, r),
            final(self).chain_len() == old(self).chain_len(),
    {
        if env.hop_count > MAX_HOPS {
            return Err(
                KernelError::HandoffLimitExceeded {
                    msg_id: env.msg_id.clone(),
                    hops: env.hop_count,
                    correlation_id: env.correlation_id.clone(),
                },
            );
        }
        let targets = self.routing.resolve(env);
        let ghost tseq = targets@.map_values(|s: String| s@);
        let ghost boxes0 = self@.boxes;
        let ghost delivered0 = self.delivered_count;
        let mut delivered: u64 = 0;
        let mut i: usize = 0;
        while i < targets.len()
            invariant
                tseq == targets@.map_values(|s: String| s@),
                i <= targets@.len(),
                self@.boxes == deliver_to(boxes0, tseq.take(i as int), env@).0,
                delivered == deliver_to(boxes0, tseq.take(i as int), env@).1,
                self.delivered_count == wrapping_add_times(delivered0, delivered as nat),
                delivered <= i,
                self.routing == old(self).routing,
                self.rejected_count == old(self).rejected_count,
                self.interceptors@.len() == old(self).interceptors@.len(),
            decreases targets@.len() - i,
        {
            let ghost b = self@.boxes;
            let t = &targets[i];
            proof {
                assert(tseq.take(i + 1).drop_last() =~= tseq.take(i as int));
                assert(tseq.take(i + 1).last() == t@);
            }
            match self.cells.index_of(t.as_str()) {
                Some(j) => {
                    let _ = self.cells.len();
                    proof {
                        assert(self.cells.key_order().contains(t@));
                    }
                    let mut mb = self.cells.replace_value_at(j, Mailbox::new(0));
                    let ghost mv = mailbox_view(mb);
                    let pushed = mb.push(env.clone());
                    let ghost mv2 = mailbox_view(mb);
                    self.cells.replace_value_at(j, mb);
                    match pushed {
                        Ok(()) => {
                            delivered = delivered + 1;
                            self.delivered_count = wrapping_inc_exec(self.delivered_count);
                        },
                        Err(_) => {},
                    }
                    proof {
                        assert(b[t@] == mv);
                        assert(self@.boxes =~= b.insert(t@, mv2));
                        if mv.queued.len() < mv.capacity {
                            assert(mv2 == BoxView { queued: mv.queued.push(env@), capacity: mv.capacity });
                        } else {
                            assert(mv2 == mv);
                            assert(self@.boxes =~= b);
                        }
                    }
                },
                None => {},
            }
            i = i + 1;
        }
        proof {
            assert(tseq.take(i as int) =~= tseq);
        }
        Ok(delivered)
    }

    /// Publishes `env`: the layer rule first, then every interceptor in
    /// order (the first refusal ends the publish and is counted; a redirect
    /// changes the target cell), then delivery.
    pub fn publish(&mut self, env: SignalEnvelope) -> (r: Result<u64, KernelError>)
        ensures
            final(self).chain_len() == old(self).chain_len(),
            !may_send(env.source_layer, env.target_layer) ==> (r matches Err(e) && e@ is LayerViolation)
                && final(self)@ == old(self)@,
            may_send(env.source_layer, env.target_layer) ==> {
                ||| (r matches Err(e) && e@ is SignalValidationFailed) && final(self)@ == (BusView {
                    rejected: wrapping_inc(old(self)@.rejected),
                    ..old(self)@
                })
                ||| exists|sent: EnvelopeView|
                    redirected(env@, sent) && #[trigger] delivery_outcome(old(self)@, final(self)@, sent, r)
            },
            may_send(env.source_layer, env.target_layer) && old(self).chain_len() == 0 ==> delivery_outcome(
                old(self)@,
                final(self)@,
                env@,
                r,
            ),
    {
        if let Err(e) = env.validate_layer_transition() {
            return Err(e);
        }
        let ghost original = env@;
        assert(may_send(original.source_layer, original.target_layer));
        let mut sent = env;
        let mut i: usize = 0;
        while i < self.interceptors.len()
            invariant
                i <= self.interceptors@.len(),
                self.interceptors@.len() == old(self).interceptors@.len(),
                self@ == old(self)@,
                redirected(original, sent@),
                original == env@,
                may_send(original.source_layer, original.target_layer),
                i == 0 ==> sent@ == original,
            decreases self.interceptors@.len() - i,
        {
            let d = self.interceptors[i].intercept(&sent);
            match d {
                InterceptDecision::Allow => {},
                InterceptDecision::Reject { reason } => {
                    self.rejected_count = wrapping_inc_exec(self.rejected_count);
                    return Err(KernelError::SignalValidationFailed(reason));
                },
                InterceptDecision::Redirect { target_cell } => {
                    sent.target_cell = Some(target_cell);
                },
            }
            i = i + 1;
        }
        self.deliver(&sent)
    }

    /// Takes the oldest envelope waiting for `cell_id`.
    pub fn pop(&mut self, cell_id: &str) -> (r: Option<SignalEnvelope>)
        ensures
            final(self).chain_len() == old(self).chain_len(),
            !old(self)@.boxes.contains_key(cell_id@) ==> r is None && final(self)@ == old(self)@,
            old(self)@.boxes.contains_key(cell_id@) && old(self)@.boxes[cell_id@].queued.len() == 0
                ==> r is None && final(self)@ == old(self)@,
            old(self)@.boxes.contains_key(cell_id@) && old(self)@.boxes[cell_id@].queued.len() > 0
                ==> (r matches Some(e) && e@ == old(self)@.boxes[cell_id@].queued[0]) && final(self)@
                == (BusView {
                boxes: old(self)@.boxes.insert(
                    cell_id@,
                    BoxView {
                        queued: old(self)@.boxes[cell_id@].queued.drop_first(),
                        capacity: old(self)@.boxes[cell_id@].capacity,
                    },
                ),
                ..old(self)@
            }),
    {
        match self.cells.index_of(cell_id) {
            Some(j) => {
                let _ = self.cells.len();
                proof {
                    assert(self.cells.key_order().contains(cell_id@));
                }
                let ghost b = self@.boxes;
                let mut mb = self.cells.replace_value_at(j, Mailbox::new(0));
                let e = mb.pop();
                let ghost mv2 = mailbox_view(mb);
                self.cells.replace_value_at(j, mb);
                proof {
                    assert(self@.boxes =~= b.insert(cell_id@, mv2));
                    if b[cell_id@].queued.len() == 0 {
                        assert(self@.boxes =~= b);
                    }
                }
                e
            },
            None => None,
        }
    }

    /// Envelopes refused by the interceptor chain.
    pub fn rejected_count(&self) -> (n: u64)
        ensures
            n == self@.rejected,
    {
        self.rejected_count
    }

    /// Envelopes put into mailboxes.
    pub fn delivered_count(&self) -> (n: u64)
        ensures
            n == self@.delivered,
    {
        self.delivered_count
    }

    /// The number of cells with a mailbox.
    pub fn cell_count(&self) -> (n: usize)
        ensures
            n == self@.boxes.len(),
    {
        let n = self.cells.len();
        assert(self@.boxes.dom() =~= self.cells@.dom());
        n
    }
}

/// An envelope addressed to a registered cell whose mailbox has room is
/// delivered there exactly once, at the back of its queue.
pub proof fn law_direct_delivery(boxes: Map<Seq<char>, BoxView>, t: Seq<char>, env: EnvelopeView)
    requires
        boxes.contains_key(t),
        boxes[t].queued.len() < boxes[t].capacity,
    ensures
        deliver_to(boxes, seq![t], env) == (
            boxes.insert(t, BoxView { queued: boxes[t].queued.push(env), capacity: boxes[t].capacity }),
            1nat,
        ),
{
    let ts = seq![t];
    assert(ts.drop_last() =~= Seq::<Seq<char>>::empty());
    assert(deliver_to(boxes, ts.drop_last(), env) == (boxes, 0nat));
    assert(ts.last() == t);
}

/// Delivery counts at most one per routed target, and a mailbox never
/// holds more than its capacity afterwards if it did not before.
pub proof fn law_delivery_bounded(
    boxes: Map<Seq<char>, BoxView>,
    targets: Seq<Seq<char>>,
    env: EnvelopeView,
)
    requires
        forall|k: Seq<char>| #[trigger] boxes.contains_key(k) ==> boxes[k].queued.len() <= boxes[k].capacity,
    ensures
        deliver_to(boxes, targets, env).1 <= targets.len(),
        deliver_to(boxes, targets, env).0.dom() == boxes.dom(),
        forall|k: Seq<char>| #[trigger] deliver_to(boxes, targets, env).0.contains_key(k) ==> deliver_to(
            boxes,
            targets,
            env,
        ).0[k].queued.len() <= deliver_to(boxes, targets, env).0[k].capacity,
    decreases targets.len(),
{
    if targets.len() > 0 {
        law_delivery_bounded(boxes, targets.drop_last(), env);
        let (b, n) = deliver_to(boxes, targets.drop_last(), env);
        let t = targets.last();
        if b.contains_key(t) && b[t].queued.len() < b[t].capacity {
            assert(b.insert(t, BoxView { queued: b[t].queued.push(env), capacity: b[t].capacity }).dom() =~= b.dom());
        }
    }
}

impl Default for MessageBus {
    fn default() -> (b: Self)
        ensures
            b@.boxes == Map::<Seq<char>, BoxView>::empty(),
            b@.rejected == 0,
            b@.delivered == 0,
            b.chain_len() == 0,
    {
        MessageBus::new()
    }
}

} // verus!
