//! Interceptor decisions and routing of envelopes to cells.

use crate::signal::{EnvelopeView, Layer, SignalEnvelope};
use crate::strmap::StrMap;
use crate::text::owned;
use vstd::prelude::*;

verus! {

/// What an interceptor decides about an envelope.
#[derive(Debug, Clone)]
pub enum InterceptDecision {
    Allow,
    Reject { reason: String },
    Redirect { target_cell: String },
}

/// A decision as plain values.
pub enum DecisionView {
    Allow,
    Reject { reason: Seq<char> },
    Redirect { target_cell: Seq<char> },
}

impl View for InterceptDecision {
    type V = DecisionView;

    open spec fn view(&self) -> DecisionView {
        match self {
            InterceptDecision::Allow => DecisionView::Allow,
            InterceptDecision::Reject { reason } => DecisionView::Reject { reason: reason@ },
            InterceptDecision::Redirect { target_cell } => DecisionView::Redirect {
                target_cell: target_cell@,
            },
        }
    }
}

/// A check that every envelope passes before delivery.
///
/// Implementations keep their own counters and sets, so a check takes the
/// interceptor mutably.
pub trait BusInterceptor {
    fn name(&self) -> &'static str;

    fn intercept(&mut self, env: &SignalEnvelope) -> InterceptDecision;
}

/// The cells subscribed to `layer`, in registration order.
pub open spec fn subscribers_of(subs: Seq<(Layer, Seq<char>)>, layer: Layer) -> Seq<Seq<char>>
    decreases subs.len(),
{
    if subs.len() == 0 {
        Seq::empty()
    } else {
        let rest = subscribers_of(subs.drop_last(), layer);
        if subs.last().0 == layer {
            rest.push(subs.last().1)
        } else {
            rest
        }
    }
}

/// Where an envelope goes: its target cell alone when that cell is
/// registered (nowhere when it is not); without a target cell, every cell
/// subscribed to its target layer.
pub open spec fn route(
    cells: Set<Seq<char>>,
    subs: Seq<(Layer, Seq<char>)>,
    env: EnvelopeView,
) -> Seq<Seq<char>> {
    match env.target_cell {
        Some(t) => if cells.contains(t) {
            seq![t]
        } else {
            Seq::empty()
        },
        None => subscribers_of(subs, env.target_layer),
    }
}

/// Registered cells and the layers they listen on.
pub struct RoutingTable {
    cell_id_to_name: StrMap<String>,
    layer_subscribers: Vec<(Layer, String)>,
}

impl RoutingTable {
    /// The registered cell ids.
    pub closed spec fn cells(&self) -> Set<Seq<char>> {
        self.cell_id_to_name@.dom()
    }

    /// Every registration, as (layer, cell) in order.
    pub closed spec fn subscriptions(&self) -> Seq<(Layer, Seq<char>)> {
        self.layer_subscribers@.map_values(|p: (Layer, String)| (p.0, p.1@))
    }

    pub fn new() -> (t: Self)
        ensures
            t.cells() == Set::<Seq<char>>::empty(),
            t.subscriptions() == Seq::<(Layer, Seq<char>)>::empty(),
    {
        let t = RoutingTable { cell_id_to_name: StrMap::new(), layer_subscribers: Vec::new() };
        assert(t.subscriptions() =~= Seq::<(Layer, Seq<char>)>::empty());
        t
    }

    /// Registers `cell_id` and subscribes it to `layer`.
    pub fn register_cell(&mut self, cell_id: &str, layer: Layer)
        ensures
            final(self).cells() == old(self).cells().insert(cell_id@),
            final(self).subscriptions() == old(self).subscriptions().push((layer, cell_id@)),
    {
        self.cell_id_to_name.insert(owned(cell_id), owned(cell_id));
        self.layer_subscribers.push((layer, owned(cell_id)));
        assert(self.cell_id_to_name@.dom() =~= old(self).cell_id_to_name@.dom().insert(cell_id@));
        assert(self.subscriptions() =~= old(self).subscriptions().push((layer, cell_id@)));
    }

    /// The cells that `env` is delivered to.
    pub fn resolve(&self, env: &SignalEnvelope) -> (targets: Vec<String>)
        ensures
            targets@.map_values(|s: String| s@) == route(self.cells(), self.subscriptions(), env@),
    {
        if let Some(target) = &env.target_cell {
            if self.cell_id_to_name.contains_key(target.as_str()) {
                let v = vec![target.clone()];
                assert(v@.map_values(|s: String| s@) =~= seq![target@]);
                return v;
            }
            let v: Vec<String> = Vec::new();
            assert(v@.map_values(|s: String| s@) =~= Seq::<Seq<char>>::empty());
            return v;
        }
        let layer = env.target_layer;
        let ghost subs = self.subscriptions();
        let mut out: Vec<String> = Vec::new();
        let mut i: usize = 0;
        while i < self.layer_subscribers.len()
            invariant
                subs == self.subscriptions(),
                subs.len() == self.layer_subscribers@.len(),
                i <= subs.len(),
                out@.map_values(|s: String| s@) == subscribers_of(subs.take(i as int), layer),
            decreases self.layer_subscribers@.len() - i,
        {
            let ghost before = out@;
            assert(subs.take(i + 1).drop_last() =~= subs.take(i as int));
            if self.layer_subscribers[i].0 == layer {
                out.push(self.layer_subscribers[i].1.clone());
                assert(out@.map_values(|s: String| s@) =~= before.map_values(|s: String| s@).push(
                    subs[i as int].1,
                ));
            }
            i = i + 1;
        }
        assert(subs.take(i as int) =~= subs);
        out
    }
}

impl Default for RoutingTable {
    fn default() -> (t: Self)
        ensures
            t.cells() == Set::<Seq<char>>::empty(),
            t.subscriptions() == Seq::<(Layer, Seq<char>)>::empty(),
    {
        RoutingTable::new()
    }
}

} // verus!
