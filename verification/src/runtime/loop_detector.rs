//! Message loop detection by the cells each correlation has visited.
//!
//! At most `max_tracked` correlations are remembered; when a new one
//! arrives at the limit, the oldest are forgotten first.

use crate::signal::{layer_debug_name, EnvelopeView, SignalEnvelope};
use crate::strmap::StrMap;
use crate::text::{decimal, owned, u64_to_decimal};
use vstd::prelude::*;

verus! {

/// The correlations left after making room for one more under a limit of
/// `max`: the oldest go first, until fewer than `max` remain (all of them
/// when `max` is 0).
pub open spec fn evicted(order: Seq<Seq<char>>, max: nat) -> Seq<Seq<char>> {
    if order.len() < max {
        order
    } else if max == 0 {
        Seq::empty()
    } else {
        order.skip(order.len() - max + 1)
    }
}

/// The tracked correlations, oldest first, with the cells each has visited.
pub struct LruView {
    pub order: Seq<Seq<char>>,
    pub tracks: Map<Seq<char>, Set<Seq<char>>>,
    pub max_tracked: nat,
}

/// `v` after making sure `key` is tracked: a new key evicts the oldest
/// correlations as `evicted` says and starts with no visited cell.
pub open spec fn touched(v: LruView, key: Seq<char>) -> LruView {
    if v.tracks.contains_key(key) {
        v
    } else {
        let kept = evicted(v.order, v.max_tracked);
        LruView {
            order: kept.push(key),
            tracks: v.tracks.restrict(kept.to_set()).insert(key, Set::empty()),
            max_tracked: v.max_tracked,
        }
    }
}

pub open spec fn tracks_of(m: StrMap<StrMap<()>>) -> Map<Seq<char>, Set<Seq<char>>> {
    m@.map_values(|s: StrMap<()>| s@.dom())
}

/// Correlations and the cells they visited, with a bound on how many
/// correlations are remembered.
pub struct LruCorrelationMap {
    map: StrMap<StrMap<()>>,
    max_tracked: usize,
}

impl View for LruCorrelationMap {
    type V = LruView;

    closed spec fn view(&self) -> LruView {
        LruView {
            order: self.map.key_order(),
            tracks: tracks_of(self.map),
            max_tracked: self.max_tracked as nat,
        }
    }
}

impl LruCorrelationMap {
    pub fn new(max_tracked: usize) -> (m: Self)
        ensures
            m@.order == Seq::<Seq<char>>::empty(),
            m@.tracks == Map::<Seq<char>, Set<Seq<char>>>::empty(),
            m@.max_tracked == max_tracked,
    {
        let m = LruCorrelationMap { map: StrMap::new(), max_tracked };
        assert(tracks_of(m.map) =~= Map::<Seq<char>, Set<Seq<char>>>::empty());
        m
    }

    /// Forgets the oldest correlations until fewer than `max_tracked`
    /// remain.
    pub fn evict_if_needed(&mut self)
        ensures
            final(self)@.order == evicted(old(self)@.order, old(self)@.max_tracked),
            final(self)@.tracks == old(self)@.tracks.restrict(final(self)@.order.to_set()),
            final(self)@.max_tracked == old(self)@.max_tracked,
    {
        let ghost order0 = self.map.key_order();
        let ghost tracks0 = tracks_of(self.map);
        let n0 = self.map.len();
        let mut removed: usize = 0;
        proof {
            assert(order0.skip(0) =~= order0);
            assert forall|k: Seq<char>| tracks0.contains_key(k) <==> order0.skip(0).to_set().contains(k) by {
                assert(order0.skip(0).to_set().contains(k) <==> order0.contains(k));
            }
            assert(tracks0.restrict(order0.skip(0).to_set()) =~= tracks0);
        }
        while self.map.len() >= self.max_tracked && self.map.len() > 0
            invariant
                removed <= n0,
                n0 == order0.len(),
                order0.no_duplicates(),
                forall|k: Seq<char>| order0.contains(k) <==> tracks0.contains_key(k),
                self.map.key_order() == order0.skip(removed as int),
                tracks_of(self.map) == tracks0.restrict(order0.skip(removed as int).to_set()),
                self.max_tracked == old(self).max_tracked,
                order0 == old(self)@.order,
                tracks0 == old(self)@.tracks,
                removed > 0 ==> n0 - removed + 1 >= self.max_tracked,
            decreases n0 - removed,
        {
            let ghost before = self.map;
            let first = self.map.remove_first();
            proof {
                let cur = order0.skip(removed as int);
                let kept = order0.skip(removed + 1);
                let gone = order0[removed as int];
                assert(cur.drop_first() =~= kept);
                assert(cur[0] == gone);
                assert(!kept.contains(gone)) by {
                    if kept.contains(gone) {
                        let j = choose|j: int| 0 <= j < kept.len() && kept[j] == gone;
                        assert(order0[removed + 1 + j] == order0[removed as int]);
                    }
                }
                assert forall|k: Seq<char>| cur.to_set().contains(k) <==> (kept.to_set().contains(k)
                    || k == gone) by {
                    if cur.contains(k) && k != gone {
                        let j = choose|j: int| 0 <= j < cur.len() && cur[j] == k;
                        assert(j > 0);
                        assert(kept[j - 1] == k);
                    }
                    if kept.contains(k) {
                        let j = choose|j: int| 0 <= j < kept.len() && kept[j] == k;
                        assert(cur[j + 1] == k);
                    }
                    if k == gone {
                        assert(cur[0] == k);
                    }
                }
                assert(tracks_of(self.map) =~= tracks_of(before).remove(gone));
                assert(tracks_of(self.map) =~= tracks0.restrict(kept.to_set()));
            }
            removed = removed + 1;
        }
        proof {
            let kept = order0.skip(removed as int);
            let max = self.max_tracked as nat;
            assert(kept.len() == n0 - removed);
            if order0.len() < max {
                assert(removed == 0);
            } else if max == 0 {
                assert(removed == n0);
            } else if removed == 0 {
                assert(false);
            } else {
                assert(n0 - removed == max - 1);
            }
            assert(kept =~= evicted(order0, max));
        }
    }

    /// Makes sure `key` is tracked and gives its position.
    pub fn get_or_default(&mut self, key: &str) -> (i: usize)
        ensures
            final(self)@ == touched(old(self)@, key@),
            lru_in_step(final(self)@),
            i < final(self)@.order.len(),
            final(self)@.order[i as int] == key@,
    {
        match self.map.index_of(key) {
            Some(i) => {
                let _ = self.map.len();
                proof {
                    assert(self.map.key_order()[i as int] == key@);
                    assert(self.map.key_order().contains(key@));
                    assert(self.map@.contains_key(key@));
                    assert(tracks_of(self.map).contains_key(key@));
                    assert(tracks_of(self.map).dom() =~= self.map@.dom());
                }
                i
            },
            None => {
                let ghost v0 = self@;
                self.evict_if_needed();
                let ghost mid = self.map;
                let fresh: StrMap<()> = StrMap::new();
                proof {
                    assert(!tracks_of(mid).contains_key(key@));
                    assert(fresh@.dom() =~= Set::<Seq<char>>::empty());
                }
                self.map.insert(owned(key), fresh);
                let n = self.map.len();
                proof {
                    assert(tracks_of(self.map) =~= tracks_of(mid).insert(key@, Set::<Seq<char>>::empty()));
                    assert(tracks_of(self.map).dom() =~= self.map@.dom());
                }
                n - 1
            },
        }
    }

    /// The number of tracked correlations.
    pub fn len(&self) -> (n: usize)
        ensures
            n == self@.order.len(),
            n == self@.tracks.len(),
    {
        let n = self.map.len();
        assert(tracks_of(self.map).dom() =~= self.map@.dom());
        n
    }
}

/// The cell an envelope counts as visiting: its target cell, or its
/// target layer when it has none.
pub open spec fn visited_cell(env: EnvelopeView) -> Seq<char> {
    match env.target_cell {
        Some(t) => t,
        None => "layer:"@ + layer_debug_name(env.target_layer),
    }
}

pub open spec fn loop_message(cid: Seq<char>, target: Seq<char>, n: nat) -> Seq<char> {
    "message loop detected for correlation "@ + cid + ": revisiting cell "@ + target
        + " after visiting "@ + decimal(n) + " cells"@
}

pub open spec fn chain_message(cid: Seq<char>, n: nat, max: nat) -> Seq<char> {
    "message chain too long for correlation "@ + cid + ": visited "@ + decimal(n) + " cells (max "@
        + decimal(max) + ")"@
}

/// Recording a visit of `target` under correlation `cid`: the correlation
/// is tracked first; a revisit after two or more cells is a loop, a
/// correlation that has visited `max_cells` cells may visit no more, and
/// otherwise the cell joins the visited set.
pub open spec fn check_outcome(v: LruView, max_cells: nat, cid: Seq<char>, target: Seq<char>) -> (
    LruView,
    Result<(), Seq<char>>,
) {
    let t = touched(v, cid);
    let cells = t.tracks[cid];
    if cells.contains(target) && cells.len() >= 2 {
        (t, Err(loop_message(cid, target, cells.len())))
    } else if cells.len() >= max_cells {
        (t, Err(chain_message(cid, cells.len(), max_cells)))
    } else {
        (LruView { tracks: t.tracks.insert(cid, cells.insert(target)), ..t }, Ok(()))
    }
}

/// Detects message loops per correlation id.
pub struct LoopDetector {
    paths: LruCorrelationMap,
    max_cells_per_correlation: usize,
}

impl LoopDetector {
    /// The tracked correlations.
    pub closed spec fn paths(&self) -> LruView {
        self.paths@
    }

    pub closed spec fn max_cells(&self) -> nat {
        self.max_cells_per_correlation as nat
    }

    pub fn new(max_cells_per_correlation: usize, max_tracked: usize) -> (d: Self)
        ensures
            d.paths().order == Seq::<Seq<char>>::empty(),
            d.paths().tracks == Map::<Seq<char>, Set<Seq<char>>>::empty(),
            d.paths().max_tracked == max_tracked,
            d.max_cells() == max_cells_per_correlation,
    {
        LoopDetector { paths: LruCorrelationMap::new(max_tracked), max_cells_per_correlation }
    }

    /// Records that `env` visits its target under its correlation id, or
    /// refuses it as a loop or an over-long chain.
    pub fn check_and_record(&mut self, env: &SignalEnvelope) -> (r: Result<(), String>)
        ensures
            ({
                let (after, outcome) = check_outcome(
                    old(self).paths(),
                    old(self).max_cells(),
                    env.correlation_id@,
                    visited_cell(env@),
                );
                &&& final(self).paths() == after
                &&& final(self).max_cells() == old(self).max_cells()
                &&& match outcome {
                    Ok(()) => r is Ok,
                    Err(m) => r matches Err(s) && s@ == m,
                }
            }),
    {
        let target = match &env.target_cell {
            Some(t) => t.clone(),
            None => {
                proof {
                    reveal_strlit("layer:");
                }
                let mut t = owned("layer:");
                t.append(env.target_layer.debug_name());
                t
            },
        };
        let cid = env.correlation_id.as_str();
        let idx = self.paths.get_or_default(cid);
        let ghost touched_view = self.paths@;
        let cells = self.paths.map.value_at(idx);
        let n = cells.len();
        proof {
            assert(self.paths.map.key_order()[idx as int] == cid@);
            assert(touched_view.tracks.contains_key(cid@));
            assert(self.paths.map@.contains_key(cid@));
            assert(touched_view.tracks[cid@] == cells@.dom());
            assert(cells@.dom().len() == n);
        }
        if cells.contains_key(target.as_str()) && n >= 2 {
            proof {
                reveal_strlit("message loop detected for correlation ");
                reveal_strlit(": revisiting cell ");
                reveal_strlit(" after visiting ");
                reveal_strlit(" cells");
            }
            let mut m = owned("message loop detected for correlation ");
            m.append(cid);
            m.append(": revisiting cell ");
            m.append(target.as_str());
            m.append(" after visiting ");
            m.append(u64_to_decimal(n as u64).as_str());
            m.append(" cells");
            return Err(m);
        }
        if n >= self.max_cells_per_correlation {
            proof {
                reveal_strlit("message chain too long for correlation ");
                reveal_strlit(": visited ");
                reveal_strlit(" cells (max ");
                reveal_strlit(")");
            }
            let mut m = owned("message chain too long for correlation ");
            m.append(cid);
            m.append(": visited ");
            m.append(u64_to_decimal(n as u64).as_str());
            m.append(" cells (max ");
            m.append(u64_to_decimal(self.max_cells_per_correlation as u64).as_str());
            m.append(")");
            return Err(m);
        }
        let ghost before = self.paths.map;
        let mut visited = self.paths.map.replace_value_at(idx, StrMap::new());
        visited.insert(target, ());
        let ghost vset = visited@.dom();
        self.paths.map.replace_value_at(idx, visited);
        proof {
            assert(vset =~= touched_view.tracks[cid@].insert(target@));
            assert(tracks_of(self.paths.map) =~= touched_view.tracks.insert(cid@, vset));
        }
        Ok(())
    }

    /// The number of correlations currently tracked.
    pub fn tracked_count(&self) -> (n: usize)
        ensures
            n == self.paths().order.len(),
    {
        self.paths.len()
    }
}

/// The most correlations a detector holds: its limit, and at least the
/// correlation just recorded.
pub open spec fn tracked_bound(max_tracked: nat) -> nat {
    if max_tracked == 0 {
        1
    } else {
        max_tracked
    }
}

/// Tracking a correlation never takes the number tracked past the bound.
pub proof fn law_tracked_count_bounded(v: LruView, key: Seq<char>)
    requires
        v.order.len() <= tracked_bound(v.max_tracked),
    ensures
        touched(v, key).order.len() <= tracked_bound(v.max_tracked),
        touched(v, key).tracks.contains_key(key),
{
}

/// The order lists exactly the tracked correlations, each once.
pub open spec fn lru_in_step(v: LruView) -> bool {
    &&& v.order.no_duplicates()
    &&& forall|k: Seq<char>| #[trigger] v.order.contains(k) <==> v.tracks.contains_key(k)
}

proof fn lemma_evicted_is_suffix(order: Seq<Seq<char>>, max: nat)
    requires
        order.no_duplicates(),
    ensures
        evicted(order, max).no_duplicates(),
        forall|k: Seq<char>| #[trigger] evicted(order, max).contains(k) ==> order.contains(k),
{
    let kept = evicted(order, max);
    let j: int = if order.len() < max {
        0
    } else if max == 0 {
        order.len() as int
    } else {
        order.len() - max + 1
    };
    assert(kept =~= order.skip(j));
    assert forall|a: int, b: int| 0 <= a < b < kept.len() implies kept[a] != kept[b] by {
        assert(kept[a] == order[a + j]);
        assert(kept[b] == order[b + j]);
    }
    assert forall|k: Seq<char>| #[trigger] kept.contains(k) implies order.contains(k) by {
        let i = choose|i: int| 0 <= i < kept.len() && kept[i] == k;
        assert(order[i + j] == k);
    }
}

/// Tracking a correlation keeps the order and the tracked correlations in
/// step, each listed once. A correlation already tracked changes nothing
/// (its visited cells stay, and it is not moved to the back); a new one is
/// appended with no visited cell, after the oldest were evicted, so the
/// count stays within the bound.
pub proof fn law_touched_keeps_order_in_step(v: LruView, key: Seq<char>)
    requires
        lru_in_step(v),
    ensures
        lru_in_step(touched(v, key)),
        touched(v, key).tracks.contains_key(key),
        v.tracks.contains_key(key) ==> touched(v, key) == v,
        !v.tracks.contains_key(key) ==> {
            &&& touched(v, key).order.last() == key
            &&& touched(v, key).tracks[key] == Set::<Seq<char>>::empty()
            &&& touched(v, key).order.len() <= tracked_bound(v.max_tracked)
        },
{
    if !v.tracks.contains_key(key) {
        let kept = evicted(v.order, v.max_tracked);
        lemma_evicted_is_suffix(v.order, v.max_tracked);
        let t = touched(v, key);
        assert(!kept.contains(key));
        assert forall|a: int, b: int| 0 <= a < b < t.order.len() implies t.order[a] != t.order[b] by {
            if b == kept.len() {
                assert(kept.contains(t.order[a]));
            }
        }
        assert forall|k: Seq<char>| #[trigger] t.order.contains(k) <==> t.tracks.contains_key(k) by {
            if t.order.contains(k) && k != key {
                let i = choose|i: int| 0 <= i < t.order.len() && t.order[i] == k;
                assert(i < kept.len());
                assert(kept.contains(k));
                assert(kept.to_set().contains(k));
            }
            if t.tracks.contains_key(k) && k != key {
                assert(kept.to_set().contains(k));
                assert(kept.contains(k));
                let i = choose|i: int| 0 <= i < kept.len() && kept[i] == k;
                assert(t.order[i] == k);
            }
            if k == key {
                assert(t.order[t.order.len() - 1] == key);
            }
        }
    }
}

/// Revisiting a cell once a correlation has visited two or more cells is
/// refused as a loop, and nothing is recorded.
pub proof fn law_revisit_is_loop(v: LruView, max_cells: nat, cid: Seq<char>, target: Seq<char>)
    requires
        v.tracks.contains_key(cid),
        v.tracks[cid].contains(target),
        v.tracks[cid].len() >= 2,
    ensures
        check_outcome(v, max_cells, cid, target).1 is Err,
        check_outcome(v, max_cells, cid, target).0 == v,
{
}

/// No correlation's visited set grows past `max_cells`.
pub proof fn law_chain_bounded(v: LruView, max_cells: nat, cid: Seq<char>, target: Seq<char>)
    requires
        forall|k: Seq<char>| #[trigger] v.tracks.contains_key(k) ==> v.tracks[k].finite() && v.tracks[k].len() <= max_cells,
    ensures
        forall|k: Seq<char>| #[trigger] check_outcome(v, max_cells, cid, target).0.tracks.contains_key(k)
            ==> check_outcome(v, max_cells, cid, target).0.tracks[k].len() <= max_cells,
{
}

} // verus!
