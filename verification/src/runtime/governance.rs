//! The entropy governor's decisions: which kind of action an entropy level
//! calls for, and the cooldown that holds the governor back after it acted.
//!
//! The score itself and the level it falls in are computed in floating point
//! by the caller; this module takes the level as given.

use vstd::prelude::*;

verus! {

/// How disordered the system is, from calm to critical.
#[derive(Clone, Copy, Debug, PartialEq, Eq, Structural)]
pub enum EntropyLevel {
    Green,
    Yellow,
    Red,
    Critical,
}

/// The kind of governance action taken: nothing, a warning, throttling the
/// hottest cell, or an emergency.
#[derive(Clone, Copy, Debug, PartialEq, Eq, Structural)]
pub enum GovernanceKind {
    NoAction,
    Warn,
    Throttle,
    Emergency,
}

/// Whether an action at `last_action_ns` still holds the governor back at
/// `now_ns`.
pub open spec fn in_cooldown(last_action_ns: u64, cooldown_ns: u64, now_ns: u64) -> bool {
    last_action_ns + cooldown_ns > now_ns
}

/// The action a level calls for once no cooldown holds.
pub open spec fn kind_for_level(level: EntropyLevel) -> GovernanceKind {
    match level {
        EntropyLevel::Green => GovernanceKind::NoAction,
        EntropyLevel::Yellow => GovernanceKind::Warn,
        EntropyLevel::Red => GovernanceKind::Throttle,
        EntropyLevel::Critical => GovernanceKind::Emergency,
    }
}

/// Whether a level is hot enough to reduce load: red or critical.
pub open spec fn is_hot(level: EntropyLevel) -> bool {
    level == EntropyLevel::Red || level == EntropyLevel::Critical
}

/// The action decided at `now_ns` by a governor that last acted at
/// `last_action_ns`: none while the cooldown holds, else what the level
/// calls for.
pub open spec fn decision(
    last_action_ns: u64,
    cooldown_ns: u64,
    now_ns: u64,
    level: EntropyLevel,
) -> GovernanceKind {
    if in_cooldown(last_action_ns, cooldown_ns, now_ns) {
        GovernanceKind::NoAction
    } else {
        kind_for_level(level)
    }
}

/// Whether a governor that last acted at `last_action_ns` reduces load at
/// `now_ns`: the level is hot and no cooldown holds.
pub open spec fn reduces(
    last_action_ns: u64,
    cooldown_ns: u64,
    now_ns: u64,
    level: EntropyLevel,
) -> bool {
    is_hot(level) && !in_cooldown(last_action_ns, cooldown_ns, now_ns)
}

/// What applying a governance action does to the runtime's switches:
/// whether every throttle is lifted, whether the hottest cell is throttled,
/// and whether emergency mode is on afterwards.
#[derive(Clone, Copy, Debug, PartialEq, Eq, Structural)]
pub struct GovernanceEffect {
    pub clear_throttles: bool,
    pub throttle_target: bool,
    pub emergency: bool,
}

/// The effect of `kind`, given whether a hottest cell is known and whether
/// emergency mode is on: no action lifts every throttle and emergency
/// mode; a warning changes nothing; a throttle throttles the hottest cell,
/// if there is one; an emergency turns emergency mode on.
pub open spec fn effect_of(kind: GovernanceKind, has_target: bool, emergency_before: bool) -> GovernanceEffect {
    match kind {
        GovernanceKind::NoAction => GovernanceEffect {
            clear_throttles: true,
            throttle_target: false,
            emergency: false,
        },
        GovernanceKind::Warn => GovernanceEffect {
            clear_throttles: false,
            throttle_target: false,
            emergency: emergency_before,
        },
        GovernanceKind::Throttle => GovernanceEffect {
            clear_throttles: false,
            throttle_target: has_target,
            emergency: emergency_before,
        },
        GovernanceKind::Emergency => GovernanceEffect {
            clear_throttles: false,
            throttle_target: false,
            emergency: true,
        },
    }
}

/// The effect of applying the action `kind` (see `effect_of`).
pub fn governance_effect(kind: GovernanceKind, has_target: bool, emergency_before: bool) -> (e: GovernanceEffect)
    ensures
        e == effect_of(kind, has_target, emergency_before),
{
    match kind {
        GovernanceKind::NoAction => GovernanceEffect {
            clear_throttles: true,
            throttle_target: false,
            emergency: false,
        },
        GovernanceKind::Warn => GovernanceEffect {
            clear_throttles: false,
            throttle_target: false,
            emergency: emergency_before,
        },
        GovernanceKind::Throttle => GovernanceEffect {
            clear_throttles: false,
            throttle_target: has_target,
            emergency: emergency_before,
        },
        GovernanceKind::Emergency => GovernanceEffect {
            clear_throttles: false,
            throttle_target: false,
            emergency: true,
        },
    }
}

/// When the governor last acted, and how long it then keeps still.
pub struct GovernorCooldown {
    pub last_action_ns: u64,
    pub cooldown_ns: u64,
}

impl GovernorCooldown {
    /// A governor that has never acted.
    pub fn new(cooldown_ns: u64) -> (g: Self)
        ensures
            g.last_action_ns == 0,
            g.cooldown_ns == cooldown_ns,
    {
        GovernorCooldown { last_action_ns: 0, cooldown_ns }
    }

    /// Whether the last action still holds the governor back at `now_ns`.
    pub fn is_cooling(&self, now_ns: u64) -> (b: bool)
        ensures
            b == in_cooldown(self.last_action_ns, self.cooldown_ns, now_ns),
    {
        self.last_action_ns > now_ns || self.cooldown_ns > now_ns - self.last_action_ns
    }

    /// The nanoseconds of cooldown left at `now_ns`, 0 once it has run out.
    pub fn remaining_ns(&self, now_ns: u64) -> (r: u64)
        requires
            self.last_action_ns + self.cooldown_ns <= u64::MAX,
        ensures
            r == (if in_cooldown(self.last_action_ns, self.cooldown_ns, now_ns) {
                self.last_action_ns + self.cooldown_ns - now_ns
            } else {
                0
            }),
    {
        (self.last_action_ns + self.cooldown_ns).saturating_sub(now_ns)
    }

    /// Decides the action at `now_ns` for `level`: none while cooling down,
    /// else what the level calls for. An action other than none restarts
    /// the cooldown at `now_ns`.
    pub fn take_action_at(&mut self, level: EntropyLevel, now_ns: u64) -> (kind: GovernanceKind)
        ensures
            kind == decision(old(self).last_action_ns, old(self).cooldown_ns, now_ns, level),
            final(self).cooldown_ns == old(self).cooldown_ns,
            final(self).last_action_ns == (if kind == GovernanceKind::NoAction {
                old(self).last_action_ns
            } else {
                now_ns
            }),
    {
        if self.is_cooling(now_ns) {
            return GovernanceKind::NoAction;
        }
        let kind = match level {
            EntropyLevel::Green => GovernanceKind::NoAction,
            EntropyLevel::Yellow => GovernanceKind::Warn,
            EntropyLevel::Red => GovernanceKind::Throttle,
            EntropyLevel::Critical => GovernanceKind::Emergency,
        };
        match kind {
            GovernanceKind::NoAction => {},
            _ => {
                self.last_action_ns = now_ns;
            },
        }
        kind
    }

    /// Whether load should be reduced at `now_ns`: the level is red or
    /// critical and no cooldown holds. When it answers yes, the cooldown
    /// restarts at `now_ns`.
    pub fn should_reduce_at(&mut self, level: EntropyLevel, now_ns: u64) -> (fire: bool)
        ensures
            fire == reduces(old(self).last_action_ns, old(self).cooldown_ns, now_ns, level),
            final(self).cooldown_ns == old(self).cooldown_ns,
            final(self).last_action_ns == (if fire {
                now_ns
            } else {
                old(self).last_action_ns
            }),
    {
        let hot = match level {
            EntropyLevel::Red => true,
            EntropyLevel::Critical => true,
            _ => false,
        };
        if !hot {
            return false;
        }
        if self.is_cooling(now_ns) {
            return false;
        }
        self.last_action_ns = now_ns;
        true
    }
}

/// Once the governor has acted at `t`, it takes no further action of any
/// level while the cooldown runs, that is at any `now` with
/// `t <= now < t + cooldown`.
pub proof fn law_cooldown_suppresses_repeat(
    t: u64,
    cooldown_ns: u64,
    now: u64,
    level: EntropyLevel,
)
    requires
        t <= now,
        now < t + cooldown_ns,
    ensures
        decision(t, cooldown_ns, now, level) == GovernanceKind::NoAction,
        !reduces(t, cooldown_ns, now, level),
{
}

/// Once the cooldown after an action at `t` has run out, the governor
/// again acts as the level calls for.
pub proof fn law_cooldown_expires(t: u64, cooldown_ns: u64, now: u64, level: EntropyLevel)
    requires
        t + cooldown_ns <= now,
    ensures
        decision(t, cooldown_ns, now, level) == kind_for_level(level),
        reduces(t, cooldown_ns, now, level) == is_hot(level),
{
}

/// Outside any cooldown, every level but green calls for an action, and
/// exactly the red and critical levels call for reducing load.
pub proof fn law_levels_act_outside_cooldown(level: EntropyLevel)
    ensures
        (kind_for_level(level) == GovernanceKind::NoAction) <==> level == EntropyLevel::Green,
        is_hot(level) <==> (kind_for_level(level) == GovernanceKind::Throttle || kind_for_level(
            level,
        ) == GovernanceKind::Emergency),
{
}

/// Emergency mode, once on, stays on through warnings and throttles and is
/// lifted only by a round in which the governor takes no action.
pub proof fn law_emergency_lifted_only_by_calm(kind: GovernanceKind, has_target: bool)
    ensures
        effect_of(kind, has_target, true).emergency <==> kind != GovernanceKind::NoAction,
        effect_of(GovernanceKind::Emergency, has_target, false).emergency,
{
}

} // verus!
