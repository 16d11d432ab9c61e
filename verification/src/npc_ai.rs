//! The controller that turns what an NPC sees into what it means to do.
use vstd::prelude::*;
use crate::npc_action::{
    first_answer, CombatStrategy, HealingStrategy, InteractingStrategy, NpcAction, NpcAiStrategy,
    NpcAiStrategyComposer, PartyStrategy, RandomBehaviorStrategy, Strategy,
};
use crate::npc_view::NpcView;

verus! {

/// The strategies of the standard behaviour, in the order in which they are
/// asked.
pub open spec fn standard_strategies() -> Seq<Strategy> {
    seq![
        Strategy::Interacting(InteractingStrategy),
        Strategy::Combat(CombatStrategy),
        Strategy::Party(PartyStrategy),
        Strategy::Healing(HealingStrategy),
        Strategy::RandomBehavior(RandomBehaviorStrategy),
    ]
}

/// Decides NPC intentions with the standard strategies. It only answers:
/// the world carries the intentions out.
pub struct NpcAiController {
    strategy_composer: NpcAiStrategyComposer,
}

impl NpcAiController {
    /// The strategies that the controller asks, in order.
    pub closed spec fn strategies(&self) -> Seq<Strategy> {
        self.strategy_composer.strategy_seq()
    }

    /// A controller with the standard strategies.
    pub fn new() -> (r: Self)
        ensures
            r.strategies() == standard_strategies(),
    {
        Self { strategy_composer: NpcAiStrategyComposer::default() }
    }

    /// The intention of an NPC that sees `npc_view`: the first answer of
    /// the strategies, asked in order.
    pub fn decide_action(&self, npc_view: &NpcView) -> (r: Option<NpcAction>)
        ensures
            first_answer(self.strategies(), *npc_view, r),
    {
        self.strategy_composer.decide_action(npc_view)
    }
}

impl Default for NpcAiController {
    fn default() -> (r: Self)
        ensures
            r.strategies() == standard_strategies(),
    {
        Self::new()
    }
}

/// With the standard strategies, an NPC that is interacting with the
/// player stays idle, whatever else it sees.
pub proof fn law_interacting_npc_stays_idle(v: NpcView, r: Option<NpcAction>)
    requires
        v.is_interacting,
        first_answer(standard_strategies(), v, r),
    ensures
        r == Some(NpcAction::Idle),
{
    let s = standard_strategies();
    assert(s[0] == Strategy::Interacting(InteractingStrategy));
    match r {
        Some(a) => {
            let k = choose|k: int|
                0 <= k < s.len() && s[k].decides(v, Some(a)) && forall|j: int|
                    0 <= j < k ==> s[j].decides(v, None);
            if k > 0 {
                assert(s[0].decides(v, None));
            }
        },
        None => {
            assert(s[0].decides(v, None));
        },
    }
}

/// With the standard strategies, an NPC always means to do something: the
/// last strategy, random behaviour, never answers nothing.
pub proof fn law_standard_strategies_always_answer(v: NpcView, r: Option<NpcAction>)
    requires
        first_answer(standard_strategies(), v, r),
    ensures
        r is Some,
{
    let s = standard_strategies();
    if r is None {
        assert(s[4] == Strategy::RandomBehavior(RandomBehaviorStrategy));
        assert(s[4].decides(v, None));
        let (roll, dir) = choose|roll: int, dir: int|
            0 <= roll < 100 && 0 <= dir < 4 && crate::npc_action::random_answer(v, roll, dir, None);
    }
}

/// With the standard strategies, an NPC in combat that is not interacting
/// with the player uses a combat skill on the player: punch or kick.
pub proof fn law_fighting_npc_uses_a_skill(v: NpcView, r: Option<NpcAction>)
    requires
        v.in_combat,
        !v.is_interacting,
        first_answer(standard_strategies(), v, r),
    ensures
        crate::npc_action::uses_skill_on_player(r, "punch"@) || crate::npc_action::uses_skill_on_player(
            r,
            "kick"@,
        ),
{
    let s = standard_strategies();
    assert(s[0] == Strategy::Interacting(InteractingStrategy));
    assert(s[1] == Strategy::Combat(CombatStrategy));
    assert(!s[1].decides(v, None));
    match r {
        Some(a) => {
            let k = choose|k: int|
                0 <= k < s.len() && s[k].decides(v, Some(a)) && forall|j: int|
                    0 <= j < k ==> s[j].decides(v, None);
            if k > 1 {
                assert(s[1].decides(v, None));
            }
            assert(k != 0);
        },
        None => {
            assert(s[1].decides(v, None));
        },
    }
}

} // verus!
