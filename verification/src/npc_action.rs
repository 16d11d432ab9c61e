//! NPC intentions and the strategies that choose them from what an NPC
//! sees.
use vstd::prelude::*;
use crate::npc_view::NpcView;
use crate::random::random_below;
use crate::text::{decimal, push_decimal, str_eq};

verus! {

/// A direction of movement on the map.
#[derive(Debug, PartialEq, Eq, Structural)]
pub enum Direction {
    Up,
    Down,
    Left,
    Right,
}

impl Clone for Direction {
    fn clone(&self) -> (r: Self)
        ensures
            r == *self,
    {
        match self {
            Direction::Up => Direction::Up,
            Direction::Down => Direction::Down,
            Direction::Left => Direction::Left,
            Direction::Right => Direction::Right,
        }
    }
}

/// The step that a direction takes, as (dx, dy).
pub open spec fn delta_of(d: Direction) -> (i32, i32) {
    match d {
        Direction::Up => (0i32, -1i32),
        Direction::Down => (0i32, 1i32),
        Direction::Left => (-1i32, 0i32),
        Direction::Right => (1i32, 0i32),
    }
}

/// The name of a direction (its `Debug` form).
pub open spec fn direction_name(d: Direction) -> Seq<char> {
    match d {
        Direction::Up => "Up"@,
        Direction::Down => "Down"@,
        Direction::Left => "Left"@,
        Direction::Right => "Right"@,
    }
}

impl Direction {
    /// The step that this direction takes, as (dx, dy).
    pub fn to_delta(&self) -> (r: (i32, i32))
        ensures
            r == delta_of(*self),
    {
        match self {
            Direction::Up => (0, -1),
            Direction::Down => (0, 1),
            Direction::Left => (-1, 0),
            Direction::Right => (1, 0),
        }
    }

    /// The direction whose step is (dx, dy), if any.
    pub fn from_delta(dx: i32, dy: i32) -> (r: Option<Self>)
        ensures
            match r {
                Some(d) => delta_of(d) == (dx, dy),
                None => forall|d: Direction| delta_of(d) != (dx, dy),
            },
    {
        if dx == 0 && dy == -1 {
            Some(Direction::Up)
        } else if dx == 0 && dy == 1 {
            Some(Direction::Down)
        } else if dx == -1 && dy == 0 {
            Some(Direction::Left)
        } else if dx == 1 && dy == 0 {
            Some(Direction::Right)
        } else {
            None
        }
    }

    fn name(&self) -> (r: &'static str)
        ensures
            r@ == direction_name(*self),
    {
        match self {
            Direction::Up => "Up",
            Direction::Down => "Down",
            Direction::Left => "Left",
            Direction::Right => "Right",
        }
    }
}

/// What an NPC means to do. The world decides whether it happens.
#[derive(Debug)]
pub enum NpcAction {
    Say(String),
    Move(Direction),
    PickupItem { item_name: String, quantity: u32 },
    UseItem(String),
    DropItem { item_name: String, quantity: u32 },
    Trade { target_id: String },
    Attack { target_id: String },
    UseCombatSkill { skill_name: String, target_id: String },
    Idle,
}

impl Clone for NpcAction {
    fn clone(&self) -> (r: Self)
        ensures
            r == *self,
    {
        match self {
            NpcAction::Say(text) => NpcAction::Say(text.clone()),
            NpcAction::Move(d) => NpcAction::Move(d.clone()),
            NpcAction::PickupItem { item_name, quantity } => NpcAction::PickupItem {
                item_name: item_name.clone(),
                quantity: *quantity,
            },
            NpcAction::UseItem(item) => NpcAction::UseItem(item.clone()),
            NpcAction::DropItem { item_name, quantity } => NpcAction::DropItem {
                item_name: item_name.clone(),
                quantity: *quantity,
            },
            NpcAction::Trade { target_id } => NpcAction::Trade { target_id: target_id.clone() },
            NpcAction::Attack { target_id } => NpcAction::Attack { target_id: target_id.clone() },
            NpcAction::UseCombatSkill { skill_name, target_id } => NpcAction::UseCombatSkill {
                skill_name: skill_name.clone(),
                target_id: target_id.clone(),
            },
            NpcAction::Idle => NpcAction::Idle,
        }
    }
}

/// The log line of an action.
pub open spec fn action_text(a: NpcAction) -> Seq<char> {
    match a {
        NpcAction::Say(text) => "說: "@ + text@,
        NpcAction::Move(d) => "移動: "@ + direction_name(d),
        NpcAction::PickupItem { item_name, quantity } => "撿起: "@ + item_name@ + " x"@ + decimal(
            quantity as nat,
        ),
        NpcAction::UseItem(item) => "使用: "@ + item@,
        NpcAction::DropItem { item_name, quantity } => "放下: "@ + item_name@ + " x"@ + decimal(
            quantity as nat,
        ),
        NpcAction::Trade { target_id } => "交易請求: "@ + target_id@,
        NpcAction::Attack { target_id } => "攻擊: "@ + target_id@,
        NpcAction::UseCombatSkill { skill_name, target_id } => "使用技能: "@ + skill_name@ + " -> "@
            + target_id@,
        NpcAction::Idle => "閒置"@,
    }
}

impl NpcAction {
    /// The log line of this action.
    pub fn describe(&self) -> (r: String)
        ensures
            r@ == action_text(*self),
    {
        match self {
            NpcAction::Say(text) => crate::text::concat("說: ", text.as_str()),
            NpcAction::Move(dir) => crate::text::concat("移動: ", dir.name()),
            NpcAction::PickupItem { item_name, quantity } => {
                let mut s = crate::text::concat("撿起: ", item_name.as_str());
                s.append(" x");
                push_decimal(&mut s, *quantity as u64);
                s
            },
            NpcAction::UseItem(item) => crate::text::concat("使用: ", item.as_str()),
            NpcAction::DropItem { item_name, quantity } => {
                let mut s = crate::text::concat("放下: ", item_name.as_str());
                s.append(" x");
                push_decimal(&mut s, *quantity as u64);
                s
            },
            NpcAction::Trade { target_id } => crate::text::concat("交易請求: ", target_id.as_str()),
            NpcAction::Attack { target_id } => crate::text::concat("攻擊: ", target_id.as_str()),
            NpcAction::UseCombatSkill { skill_name, target_id } => {
                let mut s = crate::text::concat("使用技能: ", skill_name.as_str());
                s.append(" -> ");
                s.append(target_id.as_str());
                s
            },
            NpcAction::Idle => String::from_str("閒置"),
        }
    }
}

/// One rule of NPC behaviour. A strategy answers `None` when it does not
/// apply, leaving the decision to the strategies after it; strategies with
/// a smaller priority number are asked first.
pub trait NpcAiStrategy {
    /// `r` is an answer that this strategy may give to the view `v`.
    spec fn decides(&self, v: NpcView, r: Option<NpcAction>) -> bool;

    /// The strategy's priority number.
    spec fn rank(&self) -> i32;

    /// The strategy's answer to the view `npc_view`.
    fn decide_action(&self, npc_view: &NpcView) -> (r: Option<NpcAction>)
        ensures
            self.decides(*npc_view, r),
    ;

    /// The strategy's priority number; smaller numbers are asked first.
    fn priority(&self) -> (r: i32)
        ensures
            r == self.rank(),
    ;
}

/// Keeps an NPC that is interacting with the player still.
pub struct InteractingStrategy;

impl NpcAiStrategy for InteractingStrategy {
    open spec fn decides(&self, v: NpcView, r: Option<NpcAction>) -> bool {
        r == (if v.is_interacting {
            Some(NpcAction::Idle)
        } else {
            None
        })
    }

    open spec fn rank(&self) -> i32 {
        10
    }

    fn decide_action(&self, npc_view: &NpcView) -> (r: Option<NpcAction>) {
        if npc_view.is_interacting {
            Some(NpcAction::Idle)
        } else {
            None
        }
    }

    fn priority(&self) -> (r: i32) {
        10
    }
}

/// Has a fighting NPC use a combat skill on the player.
pub struct CombatStrategy;

/// The combat skills, in the order in which a roll picks them.
pub open spec fn combat_skill(k: int) -> Seq<char> {
    if k == 0 {
        "punch"@
    } else {
        "kick"@
    }
}

/// `r` uses the combat skill `skill` on the player.
pub open spec fn uses_skill_on_player(r: Option<NpcAction>, skill: Seq<char>) -> bool {
    r matches Some(NpcAction::UseCombatSkill { skill_name, target_id }) && skill_name@ == skill
        && target_id@ == "me"@
}

impl CombatStrategy {
    /// The answer to `npc_view` when the skill is the one that `roll` picks
    /// (0 for punch, 1 for kick).
    pub fn decide_with_roll(&self, npc_view: &NpcView, roll: usize) -> (r: Option<NpcAction>)
        requires
            roll < 2,
        ensures
            if npc_view.in_combat {
                uses_skill_on_player(r, combat_skill(roll as int))
            } else {
                r is None
            },
    {
        if !npc_view.in_combat {
            return None;
        }
        let skill_name = if roll == 0 {
            "punch"
        } else {
            "kick"
        };
        Some(
            NpcAction::UseCombatSkill {
                skill_name: String::from_str(skill_name),
                target_id: String::from_str("me"),
            },
        )
    }
}

impl NpcAiStrategy for CombatStrategy {
    open spec fn decides(&self, v: NpcView, r: Option<NpcAction>) -> bool {
        if v.in_combat {
            uses_skill_on_player(r, "punch"@) || uses_skill_on_player(r, "kick"@)
        } else {
            r is None
        }
    }

    open spec fn rank(&self) -> i32 {
        20
    }

    fn decide_action(&self, npc_view: &NpcView) -> (r: Option<NpcAction>) {
        if !npc_view.in_combat {
            return None;
        }
        let roll = random_below(2);
        self.decide_with_roll(npc_view, roll)
    }

    fn priority(&self) -> (r: i32) {
        20
    }
}

/// Keeps an NPC that follows the player's party still.
pub struct PartyStrategy;

impl NpcAiStrategy for PartyStrategy {
    open spec fn decides(&self, v: NpcView, r: Option<NpcAction>) -> bool {
        r == (if v.in_party {
            Some(NpcAction::Idle)
        } else {
            None
        })
    }

    open spec fn rank(&self) -> i32 {
        30
    }

    fn decide_action(&self, npc_view: &NpcView) -> (r: Option<NpcAction>) {
        if npc_view.in_party {
            Some(NpcAction::Idle)
        } else {
            None
        }
    }

    fn priority(&self) -> (r: i32) {
        30
    }
}

/// Has a wounded NPC eat food it carries.
pub struct HealingStrategy;

/// Half of `x`, rounded toward zero (integer division of `i32`).
pub open spec fn half_toward_zero(x: i32) -> int {
    if x >= 0 {
        x / 2
    } else {
        -((-x) / 2)
    }
}

/// The foods a wounded NPC eats, in order of preference.
pub open spec fn healing_food(k: int) -> Seq<char> {
    if k == 0 {
        "蘋果"@
    } else if k == 1 {
        "乾肉"@
    } else {
        "麵包"@
    }
}

/// The NPC carries at least one of `food`.
pub open spec fn carries(v: NpcView, food: Seq<char>) -> bool {
    exists|i: int| 0 <= i < v.self_items@.len() && v.self_items@[i].0@ == food && v.self_items@[i].1 > 0
}

/// What the healing strategy answers to `v`.
pub open spec fn healing_answer(v: NpcView) -> Option<Seq<char>> {
    if v.self_hp >= half_toward_zero(v.self_max_hp) {
        None
    } else if carries(v, healing_food(0)) {
        Some(healing_food(0))
    } else if carries(v, healing_food(1)) {
        Some(healing_food(1))
    } else if carries(v, healing_food(2)) {
        Some(healing_food(2))
    } else {
        None
    }
}

fn carries_exec(v: &NpcView, food: &str) -> (r: bool)
    ensures
        r == carries(*v, food@),
{
    let mut i: usize = 0;
    while i < v.self_items.len()
        invariant
            i <= v.self_items@.len(),
            forall|j: int| 0 <= j < i ==> !(v.self_items@[j].0@ == food@ && v.self_items@[j].1 > 0),
        decreases v.self_items@.len() - i,
    {
        if str_eq(v.self_items[i].0.as_str(), food) && v.self_items[i].1 > 0 {
            return true;
        }
        i = i + 1;
    }
    false
}

impl NpcAiStrategy for HealingStrategy {
    open spec fn decides(&self, v: NpcView, r: Option<NpcAction>) -> bool {
        match healing_answer(v) {
            Some(food) => r matches Some(NpcAction::UseItem(f)) && f@ == food,
            None => r is None,
        }
    }

    open spec fn rank(&self) -> i32 {
        40
    }

    fn decide_action(&self, npc_view: &NpcView) -> (r: Option<NpcAction>) {
        if npc_view.self_hp >= npc_view.self_max_hp / 2 {
            return None;
        }
        if carries_exec(npc_view, "蘋果") {
            Some(NpcAction::UseItem(String::from_str("蘋果")))
        } else if carries_exec(npc_view, "乾肉") {
            Some(NpcAction::UseItem(String::from_str("乾肉")))
        } else if carries_exec(npc_view, "麵包") {
            Some(NpcAction::UseItem(String::from_str("麵包")))
        } else {
            None
        }
    }

    fn priority(&self) -> (r: i32) {
        40
    }
}

/// Has an idle NPC now and then pick something up or wander.
pub struct RandomBehaviorStrategy;

/// The directions, in the order in which a roll picks them.
pub open spec fn direction_at(k: int) -> Direction {
    if k == 0 {
        Direction::Up
    } else if k == 1 {
        Direction::Down
    } else if k == 2 {
        Direction::Left
    } else {
        Direction::Right
    }
}

/// What the random behaviour answers to `v` for the roll `roll` (out of
/// 100) and the direction roll `dir` (out of 4): picking up the first
/// visible item for a roll under 20, wandering for a roll under 30, and
/// staying idle otherwise.
pub open spec fn random_answer(v: NpcView, roll: int, dir: int, r: Option<NpcAction>) -> bool {
    if roll < 20 && v.visible_items@.len() > 0 {
        r matches Some(NpcAction::PickupItem { item_name, quantity }) && item_name@
            == v.visible_items@[0].item_name@ && quantity == 1
    } else if roll < 30 {
        r == Some(NpcAction::Move(direction_at(dir)))
    } else {
        r == Some(NpcAction::Idle)
    }
}

impl RandomBehaviorStrategy {
    /// The answer to `npc_view` for the rolls `roll` (below 100) and `dir`
    /// (below 4).
    pub fn decide_with_rolls(&self, npc_view: &NpcView, roll: usize, dir: usize) -> (r: Option<NpcAction>)
        requires
            roll < 100,
            dir < 4,
        ensures
            random_answer(*npc_view, roll as int, dir as int, r),
    {
        if roll < 20 && npc_view.visible_items.len() > 0 {
            Some(
                NpcAction::PickupItem {
                    item_name: npc_view.visible_items[0].item_name.clone(),
                    quantity: 1,
                },
            )
        } else if roll < 30 {
            let direction = if dir == 0 {
                Direction::Up
            } else if dir == 1 {
                Direction::Down
            } else if dir == 2 {
                Direction::Left
            } else {
                Direction::Right
            };
            Some(NpcAction::Move(direction))
        } else {
            Some(NpcAction::Idle)
        }
    }
}

impl NpcAiStrategy for RandomBehaviorStrategy {
    open spec fn decides(&self, v: NpcView, r: Option<NpcAction>) -> bool {
        exists|roll: int, dir: int| 0 <= roll < 100 && 0 <= dir < 4 && random_answer(v, roll, dir, r)
    }

    open spec fn rank(&self) -> i32 {
        1000
    }

    fn decide_action(&self, npc_view: &NpcView) -> (r: Option<NpcAction>) {
        let roll = random_below(100);
        let dir = if roll >= 20 && roll < 30 || (roll < 20 && npc_view.visible_items.len() == 0) {
            random_below(4)
        } else {
            0
        };
        let r = self.decide_with_rolls(npc_view, roll, dir);
        proof {
            assert(random_answer(*npc_view, roll as int, dir as int, r));
        }
        r
    }

    fn priority(&self) -> (r: i32) {
        1000
    }
}

/// One of the strategies that a composer can hold.
pub enum Strategy {
    Interacting(InteractingStrategy),
    Combat(CombatStrategy),
    Party(PartyStrategy),
    Healing(HealingStrategy),
    RandomBehavior(RandomBehaviorStrategy),
}

impl NpcAiStrategy for Strategy {
    open spec fn decides(&self, v: NpcView, r: Option<NpcAction>) -> bool {
        match self {
            Strategy::Interacting(s) => s.decides(v, r),
            Strategy::Combat(s) => s.decides(v, r),
            Strategy::Party(s) => s.decides(v, r),
            Strategy::Healing(s) => s.decides(v, r),
            Strategy::RandomBehavior(s) => s.decides(v, r),
        }
    }

    open spec fn rank(&self) -> i32 {
        match self {
            Strategy::Interacting(s) => s.rank(),
            Strategy::Combat(s) => s.rank(),
            Strategy::Party(s) => s.rank(),
            Strategy::Healing(s) => s.rank(),
            Strategy::RandomBehavior(s) => s.rank(),
        }
    }

    fn decide_action(&self, npc_view: &NpcView) -> (r: Option<NpcAction>) {
        match self {
            Strategy::Interacting(s) => s.decide_action(npc_view),
            Strategy::Combat(s) => s.decide_action(npc_view),
            Strategy::Party(s) => s.decide_action(npc_view),
            Strategy::Healing(s) => s.decide_action(npc_view),
            Strategy::RandomBehavior(s) => s.decide_action(npc_view),
        }
    }

    fn priority(&self) -> (r: i32) {
        match self {
            Strategy::Interacting(s) => s.priority(),
            Strategy::Combat(s) => s.priority(),
            Strategy::Party(s) => s.priority(),
            Strategy::Healing(s) => s.priority(),
            Strategy::RandomBehavior(s) => s.priority(),
        }
    }
}

/// The strategies of `s` are in order of priority.
pub open spec fn ranked(s: Seq<Strategy>) -> bool {
    forall|i: int, j: int| 0 <= i < j < s.len() ==> s[i].rank() <= s[j].rank()
}

/// `r` is the first answer that the strategies of `s` give, in order, to
/// `v`: some strategy answers it after all those before it answer nothing,
/// or every strategy answers nothing and `r` is nothing.
pub open spec fn first_answer(s: Seq<Strategy>, v: NpcView, r: Option<NpcAction>) -> bool {
    match r {
        Some(a) => exists|k: int|
            0 <= k < s.len() && s[k].decides(v, Some(a)) && forall|j: int|
                0 <= j < k ==> s[j].decides(v, None),
        None => forall|j: int| 0 <= j < s.len() ==> s[j].decides(v, None),
    }
}

/// Inserting a strategy after those with a priority number not larger than
/// its own, and before the others, keeps a list in order of priority.
proof fn lemma_insert_keeps_ranked(s: Seq<Strategy>, k: int, x: Strategy)
    requires
        0 <= k <= s.len(),
        ranked(s),
        forall|i: int| 0 <= i < k ==> s[i].rank() <= x.rank(),
        forall|i: int| k <= i < s.len() ==> s[i].rank() > x.rank(),
    ensures
        ranked(s.insert(k, x)),
{
    let t = s.insert(k, x);
    s.insert_ensures(k, x);
    assert forall|i: int, j: int| 0 <= i < j < t.len() implies t[i].rank() <= t[j].rank() by {
        if i < k {
            assert(t[i] == s[i]);
        } else if i > k {
            assert(t[(i - 1) + 1] == s[i - 1]);
        }
        if j < k {
            assert(t[j] == s[j]);
        } else if j > k {
            assert(t[(j - 1) + 1] == s[j - 1]);
        }
    }
}

/// A strategy whose priority number is not smaller than any in `s` is
/// added at the end.
proof fn lemma_added_last(s: Seq<Strategy>, x: Strategy, r: Seq<Strategy>)
    requires
        forall|i: int| 0 <= i < s.len() ==> s[i].rank() <= x.rank(),
        exists|k: int|
            0 <= k <= s.len() && r == #[trigger] s.insert(k, x) && (forall|i: int|
                k <= i < s.len() ==> s[i].rank() > x.rank()),
    ensures
        r == s.push(x),
{
    let k = choose|k: int|
        0 <= k <= s.len() && r == #[trigger] s.insert(k, x) && (forall|i: int|
            k <= i < s.len() ==> s[i].rank() > x.rank());
    if k < s.len() {
        assert(s[k].rank() > x.rank());
    }
    assert(s.insert(s.len() as int, x) =~= s.push(x));
}

/// Asks a list of strategies in order of priority.
pub struct NpcAiStrategyComposer {
    strategies: Vec<Strategy>,
}

impl NpcAiStrategyComposer {
    /// The strategies, in the order in which they are asked.
    pub closed spec fn strategy_seq(&self) -> Seq<Strategy> {
        self.strategies@
    }

    /// A composer with no strategies.
    pub fn new() -> (r: Self)
        ensures
            r.strategy_seq().len() == 0,
    {
        Self { strategies: Vec::new() }
    }

    /// Adds `strategy` after the strategies whose priority number is not
    /// larger than its own and before the others (a stable ordering by
    /// priority).
    pub fn add_strategy(self, strategy: Strategy) -> (r: Self)
        requires
            ranked(self.strategy_seq()),
        ensures
            ranked(r.strategy_seq()),
            exists|k: int|
                0 <= k <= self.strategy_seq().len() && r.strategy_seq() == #[trigger] self.strategy_seq().insert(
                    k,
                    strategy,
                ) && (forall|i: int| 0 <= i < k ==> self.strategy_seq()[i].rank() <= strategy.rank())
                    && (forall|i: int|
                    k <= i < self.strategy_seq().len() ==> self.strategy_seq()[i].rank()
                        > strategy.rank()),
    {
        let mut c = self;
        let p = strategy.priority();
        let ghost s = c.strategies@;
        let mut k: usize = 0;
        while k < c.strategies.len() && c.strategies[k].priority() <= p
            invariant
                k <= s.len(),
                s == c.strategies@,
                p == strategy.rank(),
                ranked(s),
                forall|i: int| 0 <= i < k ==> s[i].rank() <= p,
            decreases s.len() - k,
        {
            k = k + 1;
        }
        proof {
            assert forall|i: int| k <= i < s.len() implies s[i].rank() > p by {
                assert(s[k as int].rank() > p);
                assert(s[k as int].rank() <= s[i].rank());
            }
            lemma_insert_keeps_ranked(s, k as int, strategy);
        }
        c.strategies.insert(k, strategy);
        c
    }

    /// The first answer of the strategies, asked in order, to `npc_view`.
    pub fn decide_action(&self, npc_view: &NpcView) -> (r: Option<NpcAction>)
        ensures
            first_answer(self.strategy_seq(), *npc_view, r),
    {
        let mut i: usize = 0;
        while i < self.strategies.len()
            invariant
                i <= self.strategies@.len(),
                forall|j: int| 0 <= j < i ==> self.strategies@[j].decides(*npc_view, None),
            decreases self.strategies@.len() - i,
        {
            match self.strategies[i].decide_action(npc_view) {
                Some(action) => {
                    return Some(action);
                },
                None => {},
            }
            i = i + 1;
        }
        None
    }
}

impl Default for NpcAiStrategyComposer {
    /// The standard behaviour: interaction, combat, party, healing and
    /// random behaviour, asked in that order.
    fn default() -> (r: Self)
        ensures
            r.strategy_seq() == seq![
                Strategy::Interacting(InteractingStrategy),
                Strategy::Combat(CombatStrategy),
                Strategy::Party(PartyStrategy),
                Strategy::Healing(HealingStrategy),
                Strategy::RandomBehavior(RandomBehaviorStrategy),
            ],
    {
        let c0 = NpcAiStrategyComposer::new();
        let c1 = c0.add_strategy(Strategy::Interacting(InteractingStrategy));
        proof {
            lemma_added_last(c0.strategy_seq(), Strategy::Interacting(InteractingStrategy), c1.strategy_seq());
        }
        let c2 = c1.add_strategy(Strategy::Combat(CombatStrategy));
        proof {
            lemma_added_last(c1.strategy_seq(), Strategy::Combat(CombatStrategy), c2.strategy_seq());
        }
        let c3 = c2.add_strategy(Strategy::Party(PartyStrategy));
        proof {
            lemma_added_last(c2.strategy_seq(), Strategy::Party(PartyStrategy), c3.strategy_seq());
        }
        let c4 = c3.add_strategy(Strategy::Healing(HealingStrategy));
        proof {
            lemma_added_last(c3.strategy_seq(), Strategy::Healing(HealingStrategy), c4.strategy_seq());
        }
        let c5 = c4.add_strategy(Strategy::RandomBehavior(RandomBehaviorStrategy));
        proof {
            lemma_added_last(
                c4.strategy_seq(),
                Strategy::RandomBehavior(RandomBehaviorStrategy),
                c5.strategy_seq(),
            );
        }
        c5
    }
}

} // verus!
