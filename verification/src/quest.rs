//! Quests: their conditions and rewards, and the quest book that starts,
//! completes and abandons them.
use vstd::prelude::*;
use crate::text::{decimal, push_decimal, push_signed, signed_decimal, str_eq, strs_view};

verus! {

broadcast use vstd::seq_lib::group_seq_properties;

/// The state of a quest.
#[derive(Debug, Clone, Copy, PartialEq, Eq, Structural)]
pub enum QuestStatus {
    NotStarted,
    InProgress,
    Completed,
    Failed,
}

impl Default for QuestStatus {
    fn default() -> (r: Self)
        ensures
            r == QuestStatus::NotStarted,
    {
        QuestStatus::NotStarted
    }
}

/// Something a quest asks of the player.
#[derive(Debug)]
pub enum QuestCondition {
    TalkToNpc { npc_id: String, completed: bool },
    HasItem { item: String, count: u32, completed: bool },
    KillEnemy { enemy: String, count: u32, current: u32 },
    ReachLocation { map: String, x: usize, y: usize, completed: bool },
    PlayerStat { stat: String, min_value: i32, completed: bool },
    NpcRelationship { npc_id: String, min_value: i32, completed: bool },
}

/// Whether the condition `c` is met.
pub open spec fn condition_done(c: QuestCondition) -> bool {
    match c {
        QuestCondition::TalkToNpc { completed, .. } => completed,
        QuestCondition::HasItem { completed, .. } => completed,
        QuestCondition::KillEnemy { count, current, .. } => current >= count,
        QuestCondition::ReachLocation { completed, .. } => completed,
        QuestCondition::PlayerStat { completed, .. } => completed,
        QuestCondition::NpcRelationship { completed, .. } => completed,
    }
}

/// The mark in front of a condition: a tick when it is met, a circle
/// otherwise.
pub open spec fn mark(done: bool) -> Seq<char> {
    if done {
        "✓"@
    } else {
        "○"@
    }
}

/// The one-line description of a condition.
pub open spec fn condition_text(c: QuestCondition) -> Seq<char> {
    match c {
        QuestCondition::TalkToNpc { npc_id, completed } => mark(completed) + " 與 "@ + npc_id@
            + " 對話"@,
        QuestCondition::HasItem { item, count, completed } => mark(completed) + " 擁有 "@ + item@
            + " x"@ + decimal(count as nat),
        QuestCondition::KillEnemy { enemy, count, current } => "擊殺 "@ + enemy@ + " ("@ + decimal(
            current as nat,
        ) + "/"@ + decimal(count as nat) + ")"@,
        QuestCondition::ReachLocation { map, x, y, completed } => mark(completed) + " 到達 "@ + map@
            + " ("@ + decimal(x as nat) + ", "@ + decimal(y as nat) + ")"@,
        QuestCondition::PlayerStat { stat, min_value, completed } => mark(completed) + " "@ + stat@
            + " 達到 "@ + signed_decimal(min_value as int),
        QuestCondition::NpcRelationship { npc_id, min_value, completed } => mark(completed) + " "@
            + npc_id@ + " 好感度達到 "@ + signed_decimal(min_value as int),
    }
}

fn push_mark(s: &mut String, done: bool)
    ensures
        final(s)@ == old(s)@ + mark(done),
{
    if done {
        s.append("✓");
    } else {
        s.append("○");
    }
}

impl QuestCondition {
    /// Whether the condition is met.
    pub fn is_completed(&self) -> (r: bool)
        ensures
            r == condition_done(*self),
    {
        match self {
            QuestCondition::TalkToNpc { completed, .. } => *completed,
            QuestCondition::HasItem { completed, .. } => *completed,
            QuestCondition::KillEnemy { count, current, .. } => *current >= *count,
            QuestCondition::ReachLocation { completed, .. } => *completed,
            QuestCondition::PlayerStat { completed, .. } => *completed,
            QuestCondition::NpcRelationship { completed, .. } => *completed,
        }
    }

    /// The one-line description of the condition.
    pub fn description(&self) -> (r: String)
        ensures
            r@ == condition_text(*self),
    {
        let mut s = String::new();
        match self {
            QuestCondition::TalkToNpc { npc_id, completed } => {
                push_mark(&mut s, *completed);
                s.append(" 與 ");
                s.append(npc_id.as_str());
                s.append(" 對話");
            },
            QuestCondition::HasItem { item, count, completed } => {
                push_mark(&mut s, *completed);
                s.append(" 擁有 ");
                s.append(item.as_str());
                s.append(" x");
                push_decimal(&mut s, *count as u64);
            },
            QuestCondition::KillEnemy { enemy, count, current } => {
                s.append("擊殺 ");
                s.append(enemy.as_str());
                s.append(" (");
                push_decimal(&mut s, *current as u64);
                s.append("/");
                push_decimal(&mut s, *count as u64);
                s.append(")");
            },
            QuestCondition::ReachLocation { map, x, y, completed } => {
                push_mark(&mut s, *completed);
                s.append(" 到達 ");
                s.append(map.as_str());
                s.append(" (");
                push_decimal(&mut s, *x as u64);
                s.append(", ");
                push_decimal(&mut s, *y as u64);
                s.append(")");
            },
            QuestCondition::PlayerStat { stat, min_value, completed } => {
                push_mark(&mut s, *completed);
                s.append(" ");
                s.append(stat.as_str());
                s.append(" 達到 ");
                push_signed(&mut s, *min_value as i64);
            },
            QuestCondition::NpcRelationship { npc_id, min_value, completed } => {
                push_mark(&mut s, *completed);
                s.append(" ");
                s.append(npc_id.as_str());
                s.append(" 好感度達到 ");
                push_signed(&mut s, *min_value as i64);
            },
        }
        s
    }
}

impl Clone for QuestCondition {
    fn clone(&self) -> (r: Self)
        ensures
            r == *self,
    {
        match self {
            QuestCondition::TalkToNpc { npc_id, completed } => QuestCondition::TalkToNpc {
                npc_id: npc_id.clone(),
                completed: *completed,
            },
            QuestCondition::HasItem { item, count, completed } => QuestCondition::HasItem {
                item: item.clone(),
                count: *count,
                completed: *completed,
            },
            QuestCondition::KillEnemy { enemy, count, current } => QuestCondition::KillEnemy {
                enemy: enemy.clone(),
                count: *count,
                current: *current,
            },
            QuestCondition::ReachLocation { map, x, y, completed } => QuestCondition::ReachLocation {
                map: map.clone(),
                x: *x,
                y: *y,
                completed: *completed,
            },
            QuestCondition::PlayerStat { stat, min_value, completed } => QuestCondition::PlayerStat {
                stat: stat.clone(),
                min_value: *min_value,
                completed: *completed,
            },
            QuestCondition::NpcRelationship { npc_id, min_value, completed } =>
            QuestCondition::NpcRelationship {
                npc_id: npc_id.clone(),
                min_value: *min_value,
                completed: *completed,
            },
        }
    }
}

/// What completing a quest gives.
#[derive(Debug)]
#[allow(inconsistent_fields)]
pub enum QuestReward {
    Item { item: String, count: u32 },
    Experience { amount: u32 },
    Relationship { npc_id: String, change: i32 },
    UnlockDialogue { npc_id: String, scene: String, text: String },
    StatBoost { stat: String, amount: i32 },
}

/// The one-line description of a reward.
pub open spec fn reward_text(r: QuestReward) -> Seq<char> {
    match r {
        QuestReward::Item { item, count } => "獲得 "@ + item@ + " x"@ + decimal(count as nat),
        QuestReward::Experience { amount } => "獲得 "@ + decimal(amount as nat) + " 經驗值"@,
        QuestReward::Relationship { npc_id, change } => if change > 0 {
            npc_id@ + " 好感度 +"@ + signed_decimal(change as int)
        } else {
            npc_id@ + " 好感度 "@ + signed_decimal(change as int)
        },
        QuestReward::UnlockDialogue { npc_id, scene, .. } => "解鎖 "@ + npc_id@ + " 的 "@ + scene@
            + " 對話"@,
        QuestReward::StatBoost { stat, amount } => stat@ + " +"@ + signed_decimal(amount as int),
    }
}

impl QuestReward {
    /// The one-line description of the reward.
    pub fn description(&self) -> (r: String)
        ensures
            r@ == reward_text(*self),
    {
        let mut s = String::new();
        match self {
            QuestReward::Item { item, count } => {
                s.append("獲得 ");
                s.append(item.as_str());
                s.append(" x");
                push_decimal(&mut s, *count as u64);
            },
            QuestReward::Experience { amount } => {
                s.append("獲得 ");
                push_decimal(&mut s, *amount as u64);
                s.append(" 經驗值");
            },
            QuestReward::Relationship { npc_id, change } => {
                s.append(npc_id.as_str());
                if *change > 0 {
                    s.append(" 好感度 +");
                } else {
                    s.append(" 好感度 ");
                }
                push_signed(&mut s, *change as i64);
            },
            QuestReward::UnlockDialogue { npc_id, scene, .. } => {
                s.append("解鎖 ");
                s.append(npc_id.as_str());
                s.append(" 的 ");
                s.append(scene.as_str());
                s.append(" 對話");
            },
            QuestReward::StatBoost { stat, amount } => {
                s.append(stat.as_str());
                s.append(" +");
                push_signed(&mut s, *amount as i64);
            },
        }
        s
    }
}

impl Clone for QuestReward {
    fn clone(&self) -> (r: Self)
        ensures
            r == *self,
    {
        match self {
            QuestReward::Item { item, count } => QuestReward::Item { item: item.clone(), count: *count },
            QuestReward::Experience { amount } => QuestReward::Experience { amount: *amount },
            QuestReward::Relationship { npc_id, change } => QuestReward::Relationship {
                npc_id: npc_id.clone(),
                change: *change,
            },
            QuestReward::UnlockDialogue { npc_id, scene, text } => QuestReward::UnlockDialogue {
                npc_id: npc_id.clone(),
                scene: scene.clone(),
                text: text.clone(),
            },
            QuestReward::StatBoost { stat, amount } => QuestReward::StatBoost {
                stat: stat.clone(),
                amount: *amount,
            },
        }
    }
}

/// A quest.
#[derive(Debug, Clone)]
pub struct Quest {
    pub id: String,
    pub name: String,
    pub description: String,
    /// The quests that must be completed first, by id.
    pub prerequisites: Vec<String>,
    pub conditions: Vec<QuestCondition>,
    pub rewards: Vec<QuestReward>,
    pub status: QuestStatus,
    /// The NPC that gives the quest.
    pub giver: Option<String>,
    pub repeatable: bool,
}

/// `s` holds a string with the characters `x`.
pub open spec fn holds_str(s: Seq<String>, x: Seq<char>) -> bool {
    exists|i: int| 0 <= i < s.len() && s[i]@ == x
}

/// Every prerequisite of `q` is among the completed quests `done`.
pub open spec fn prerequisites_met(q: Quest, done: Seq<String>) -> bool {
    forall|i: int| 0 <= i < q.prerequisites@.len() ==> holds_str(done, #[trigger] q.prerequisites@[i]@)
}

/// Every condition of `q` is met.
pub open spec fn conditions_met(q: Quest) -> bool {
    forall|i: int| 0 <= i < q.conditions@.len() ==> condition_done(#[trigger] q.conditions@[i])
}

/// The name of a quest state as the detail view shows it.
pub open spec fn status_text(s: QuestStatus) -> Seq<char> {
    match s {
        QuestStatus::NotStarted => "未開始"@,
        QuestStatus::InProgress => "進行中"@,
        QuestStatus::Completed => "已完成"@,
        QuestStatus::Failed => "失敗"@,
    }
}

/// The lines `prefix + item + "\n"` for each item of `items`, concatenated.
pub open spec fn lines(prefix: Seq<char>, items: Seq<Seq<char>>) -> Seq<char>
    decreases items.len(),
{
    if items.len() == 0 {
        seq![]
    } else {
        lines(prefix, items.drop_last()) + prefix + items.last() + "\n"@
    }
}

/// A section of the detail view: a rule, the heading, and one line per item;
/// nothing when there are no items.
pub open spec fn section(heading: Seq<char>, prefix: Seq<char>, items: Seq<Seq<char>>) -> Seq<char> {
    if items.len() == 0 {
        seq![]
    } else {
        "├─────────────────────────\n"@ + heading + lines(prefix, items)
    }
}

/// The detail view of a quest.
pub open spec fn detail_text(q: Quest) -> Seq<char> {
    "┌─ "@ + q.name@ + " ─────────────────\n"@ + "│ ID: "@ + q.id@ + "\n"@ + "│ "@ + q.description@
        + "\n"@ + "│ 狀態: "@ + status_text(q.status) + "\n"@ + section(
        "│ 前置任務:\n"@,
        "│  • "@,
        strs_view(q.prerequisites@),
    ) + section(
        "│ 任務目標:\n"@,
        "│  "@,
        q.conditions@.map_values(|c: QuestCondition| condition_text(c)),
    ) + section(
        "│ 任務獎勵:\n"@,
        "│  • "@,
        q.rewards@.map_values(|r: QuestReward| reward_text(r)),
    ) + "└─────────────────────────\n"@
}

/// Whether a slice of strings holds `x`.
fn contains_str(s: &[String], x: &str) -> (r: bool)
    ensures
        r == holds_str(s@, x@),
{
    let mut i: usize = 0;
    while i < s.len()
        invariant
            i <= s@.len(),
            forall|j: int| 0 <= j < i ==> s@[j]@ != x@,
        decreases s@.len() - i,
    {
        if str_eq(s[i].as_str(), x) {
            return true;
        }
        i = i + 1;
    }
    false
}

impl Quest {
    /// The word for the quest's state, as the detail view shows it (see
    /// [`status_text`]).
    pub fn get_status_char(&self) -> (r: &'static str)
        ensures
            r@ == status_text(self.status),
    {
        proof {
            reveal_strlit("未開始");
            reveal_strlit("進行中");
            reveal_strlit("已完成");
            reveal_strlit("失敗");
        }
        match self.status {
            QuestStatus::NotStarted => "未開始",
            QuestStatus::InProgress => "進行中",
            QuestStatus::Completed => "已完成",
            QuestStatus::Failed => "失敗",
        }
    }

    /// Whether every prerequisite is among `completed_quests`.
    pub fn can_start(&self, completed_quests: &[String]) -> (r: bool)
        ensures
            r == prerequisites_met(*self, completed_quests@),
    {
        let mut i: usize = 0;
        while i < self.prerequisites.len()
            invariant
                i <= self.prerequisites@.len(),
                forall|j: int| 0 <= j < i ==> holds_str(completed_quests@, #[trigger] self.prerequisites@[j]@),
            decreases self.prerequisites@.len() - i,
        {
            if !contains_str(completed_quests, self.prerequisites[i].as_str()) {
                return false;
            }
            i = i + 1;
        }
        true
    }

    /// Whether every condition is met.
    pub fn check_conditions(&self) -> (r: bool)
        ensures
            r == conditions_met(*self),
    {
        let mut i: usize = 0;
        while i < self.conditions.len()
            invariant
                i <= self.conditions@.len(),
                forall|j: int| 0 <= j < i ==> condition_done(#[trigger] self.conditions@[j]),
            decreases self.conditions@.len() - i,
        {
            if !self.conditions[i].is_completed() {
                return false;
            }
            i = i + 1;
        }
        true
    }

    /// The detail view: name, id, description and state, then the
    /// prerequisites, conditions and rewards that there are.
    pub fn show_detail(&self) -> (r: String)
        ensures
            r@ == detail_text(*self),
    {
        let mut info = String::new();
        info.append("┌─ ");
        info.append(self.name.as_str());
        info.append(" ─────────────────\n");
        info.append("│ ID: ");
        info.append(self.id.as_str());
        info.append("\n");
        info.append("│ ");
        info.append(self.description.as_str());
        info.append("\n");
        info.append("│ 狀態: ");
        let status_str = match self.status {
            QuestStatus::NotStarted => "未開始",
            QuestStatus::InProgress => "進行中",
            QuestStatus::Completed => "已完成",
            QuestStatus::Failed => "失敗",
        };
        info.append(status_str);
        info.append("\n");
        let ghost head = info@;
        if self.prerequisites.len() > 0 {
            info.append("├─────────────────────────\n");
            info.append("│ 前置任務:\n");
            let ghost start = info@;
            let ghost items = strs_view(self.prerequisites@);
            let mut i: usize = 0;
            while i < self.prerequisites.len()
                invariant
                    i <= self.prerequisites@.len(),
                    items == strs_view(self.prerequisites@),
                    info@ == start + lines("│  • "@, items.take(i as int)),
                decreases self.prerequisites@.len() - i,
            {
                proof {
                    assert(items.take(i + 1).drop_last() =~= items.take(i as int));
                }
                info.append("│  • ");
                info.append(self.prerequisites[i].as_str());
                info.append("\n");
                i = i + 1;
            }
            proof {
                assert(items.take(i as int) =~= items);
            }
        }
        let ghost after_pre = info@;
        proof {
            assert(after_pre =~= head + section("│ 前置任務:\n"@, "│  • "@, strs_view(self.prerequisites@)));
        }
        if self.conditions.len() > 0 {
            info.append("├─────────────────────────\n");
            info.append("│ 任務目標:\n");
            let ghost start = info@;
            let ghost items = self.conditions@.map_values(|c: QuestCondition| condition_text(c));
            let mut i: usize = 0;
            while i < self.conditions.len()
                invariant
                    i <= self.conditions@.len(),
                    items == self.conditions@.map_values(|c: QuestCondition| condition_text(c)),
                    info@ == start + lines("│  "@, items.take(i as int)),
                decreases self.conditions@.len() - i,
            {
                proof {
                    assert(items.take(i + 1).drop_last() =~= items.take(i as int));
                }
                info.append("│  ");
                let d = self.conditions[i].description();
                info.append(d.as_str());
                info.append("\n");
                i = i + 1;
            }
            proof {
                assert(items.take(i as int) =~= items);
            }
        }
        let ghost after_cond = info@;
        proof {
            assert(after_cond =~= after_pre + section(
                "│ 任務目標:\n"@,
                "│  "@,
                self.conditions@.map_values(|c: QuestCondition| condition_text(c)),
            ));
        }
        if self.rewards.len() > 0 {
            info.append("├─────────────────────────\n");
            info.append("│ 任務獎勵:\n");
            let ghost start = info@;
            let ghost items = self.rewards@.map_values(|r: QuestReward| reward_text(r));
            let mut i: usize = 0;
            while i < self.rewards.len()
                invariant
                    i <= self.rewards@.len(),
                    items == self.rewards@.map_values(|r: QuestReward| reward_text(r)),
                    info@ == start + lines("│  • "@, items.take(i as int)),
                decreases self.rewards@.len() - i,
            {
                proof {
                    assert(items.take(i + 1).drop_last() =~= items.take(i as int));
                }
                info.append("│  • ");
                let d = self.rewards[i].description();
                info.append(d.as_str());
                info.append("\n");
                i = i + 1;
            }
            proof {
                assert(items.take(i as int) =~= items);
            }
        }
        let ghost after_rewards = info@;
        proof {
            assert(after_rewards =~= after_cond + section(
                "│ 任務獎勵:\n"@,
                "│  • "@,
                self.rewards@.map_values(|r: QuestReward| reward_text(r)),
            ));
        }
        info.append("└─────────────────────────\n");
        proof {
            assert(info@ =~= detail_text(*self));
        }
        info
    }
}

/// `s` holds a quest with id `id`.
pub open spec fn has_quest(s: Seq<Quest>, id: Seq<char>) -> bool {
    exists|i: int| 0 <= i < s.len() && s[i].id@ == id
}

/// No two quests of `s` share an id.
pub open spec fn ids_unique(s: Seq<Quest>) -> bool {
    forall|i: int, j: int| 0 <= i < s.len() && 0 <= j < s.len() && s[i].id@ == s[j].id@ ==> i == j
}

/// The position in `s` of the quest with id `id`.
pub open spec fn quest_index(s: Seq<Quest>, id: Seq<char>) -> int {
    choose|i: int| 0 <= i < s.len() && s[i].id@ == id
}

/// The quest of `s` with id `id`.
pub open spec fn find_quest(s: Seq<Quest>, id: Seq<char>) -> Option<Quest> {
    if has_quest(s, id) {
        Some(s[quest_index(s, id)])
    } else {
        None
    }
}

/// `q` with the state `st`.
pub open spec fn with_status(q: Quest, st: QuestStatus) -> Quest {
    Quest { status: st, ..q }
}

/// A name for what `format!("{:?}", v)` gives for a list of strings: the
/// strings quoted and escaped, separated by commas, in brackets.
pub uninterp spec fn debug_strings_text(v: Seq<Seq<char>>) -> Seq<char>;

/// `format!("{:?}", v)` for a list of strings. The contract names the
/// result; the escaping rules of `Debug` for strings are not stated.
#[verifier::external_body]
fn debug_strings(v: &Vec<String>) -> (r: String)
    ensures
        r@ == debug_strings_text(strs_view(v@)),
{
    format!("{:?}", v)
}

/// `s` with the quest `id` put in the state `st`.
pub open spec fn set_status_of(s: Seq<Quest>, id: Seq<char>, st: QuestStatus) -> Seq<Quest> {
    s.update(quest_index(s, id), with_status(find_quest(s, id)->0, st))
}

pub open spec fn is_active(q: Quest) -> bool {
    q.status == QuestStatus::InProgress
}

pub open spec fn is_completed(q: Quest) -> bool {
    q.status == QuestStatus::Completed
}

/// `q` can be taken, the completed quests being `done`: not started, or
/// completed and repeatable, with its prerequisites met.
pub open spec fn is_available(q: Quest, done: Seq<String>) -> bool {
    (q.status == QuestStatus::NotStarted || (q.status == QuestStatus::Completed && q.repeatable))
        && prerequisites_met(q, done)
}

impl Default for QuestManager {
    fn default() -> (r: Self)
        ensures
            r.wf(),
            r.quest_seq().len() == 0,
            r.completed_quests@.len() == 0,
    {
        QuestManager::new()
    }
}

/// The quest book: the known quests, each id once, and the ids of the
/// completed quests.
pub struct QuestManager {
    pub quests: Vec<Quest>,
    pub completed_quests: Vec<String>,
}

impl QuestManager {
    /// The known quests, in the order they were first added.
    pub open spec fn quest_seq(&self) -> Seq<Quest> {
        self.quests@
    }

    /// No two known quests share an id.
    pub open spec fn wf(&self) -> bool {
        ids_unique(self.quest_seq())
    }

    /// The known quest with id `id`.
    pub open spec fn quest(&self, id: Seq<char>) -> Option<Quest> {
        find_quest(self.quest_seq(), id)
    }

    /// An empty quest book.
    pub fn new() -> (r: Self)
        ensures
            r.wf(),
            r.quest_seq().len() == 0,
            r.completed_quests@.len() == 0,
    {
        QuestManager { quests: Vec::new(), completed_quests: Vec::new() }
    }

    /// The position of the quest with id `id`.
    fn position(&self, id: &str) -> (r: Option<usize>)
        requires
            self.wf(),
        ensures
            match r {
                Some(i) => i < self.quest_seq().len() && self.quest_seq()[i as int].id@ == id@
                    && quest_index(self.quest_seq(), id@) == i && has_quest(self.quest_seq(), id@),
                None => !has_quest(self.quest_seq(), id@),
            },
    {
        let mut i: usize = 0;
        while i < self.quests.len()
            invariant
                i <= self.quests@.len(),
                ids_unique(self.quests@),
                forall|j: int| 0 <= j < i ==> self.quests@[j].id@ != id@,
            decreases self.quests@.len() - i,
        {
            if str_eq(self.quests[i].id.as_str(), id) {
                proof {
                    let s = self.quests@;
                    assert(0 <= i < s.len() && s[i as int].id@ == id@);
                    assert(has_quest(s, id@));
                    let k = quest_index(s, id@);
                    assert(0 <= k < s.len() && s[k].id@ == id@);
                    assert(s[k].id@ == s[i as int].id@);
                    assert(ids_unique(s));
                    assert(k == i);
                }
                return Some(i);
            }
            i = i + 1;
        }
        None
    }

    /// Adds `quest`, replacing the known quest with the same id.
    pub fn add_quest(&mut self, quest: Quest)
        requires
            old(self).wf(),
        ensures
            final(self).wf(),
            final(self).quest(quest.id@) == Some(quest),
            forall|k: Seq<char>| k != quest.id@ ==> #[trigger] final(self).quest(k) == old(self).quest(k),
            final(self).completed_quests == old(self).completed_quests,
    {
        let ghost s = self.quests@;
        let ghost qid = quest.id@;
        match self.position(quest.id.as_str()) {
            Some(i) => {
                self.quests.set(i, quest);
                proof {
                    let t = self.quests@;
                    assert(t =~= s.update(i as int, quest));
                    assert forall|a: int, b: int| 0 <= a < t.len() && 0 <= b < t.len() && t[a].id@ == t[b].id@ implies a == b by {
                        if a != i && b != i {
                            assert(s[a].id@ == s[b].id@);
                        } else if a == i && b != i {
                            assert(s[b].id@ == s[i as int].id@);
                        } else if b == i && a != i {
                            assert(s[a].id@ == s[i as int].id@);
                        }
                    }
                    assert(has_quest(t, qid));
                    let k = quest_index(t, qid);
                    assert(t[k].id@ == t[i as int].id@);
                    assert forall|key: Seq<char>| key != qid implies #[trigger] find_quest(t, key) == find_quest(s, key) by {
                        if has_quest(s, key) {
                            let j = quest_index(s, key);
                            assert(j != i);
                            assert(t[j] == s[j]);
                            assert(has_quest(t, key));
                            let jt = quest_index(t, key);
                            assert(t[jt].id@ == t[j].id@);
                        }
                        if has_quest(t, key) {
                            let jt = quest_index(t, key);
                            assert(jt != i);
                            assert(s[jt] == t[jt]);
                        }
                    }
                }
            },
            None => {
                self.quests.push(quest);
                proof {
                    let t = self.quests@;
                    assert(t =~= s.push(quest));
                    let n = s.len() as int;
                    assert forall|a: int, b: int| 0 <= a < t.len() && 0 <= b < t.len() && t[a].id@ == t[b].id@ implies a == b by {
                        if a < n && b < n {
                            assert(s[a].id@ == s[b].id@);
                        } else if a < n {
                            assert(s[a].id@ == qid);
                        } else if b < n {
                            assert(s[b].id@ == qid);
                        }
                    }
                    assert(t[n].id@ == qid);
                    assert(has_quest(t, qid));
                    let k = quest_index(t, qid);
                    assert(t[k].id@ == t[n].id@);
                    assert forall|key: Seq<char>| key != qid implies #[trigger] find_quest(t, key) == find_quest(s, key) by {
                        if has_quest(s, key) {
                            let j = quest_index(s, key);
                            assert(t[j] == s[j]);
                            assert(has_quest(t, key));
                            let jt = quest_index(t, key);
                            assert(t[jt].id@ == t[j].id@);
                        }
                        if has_quest(t, key) {
                            let jt = quest_index(t, key);
                            assert(jt != n);
                            assert(s[jt] == t[jt]);
                        }
                    }
                }
            },
        }
    }

    /// The quest with id `quest_id`.
    pub fn get_quest(&self, quest_id: &str) -> (r: Option<&Quest>)
        requires
            self.wf(),
        ensures
            match r {
                Some(q) => self.quest(quest_id@) == Some(*q),
                None => self.quest(quest_id@) is None,
            },
    {
        match self.position(quest_id) {
            Some(i) => Some(&self.quests[i]),
            None => None,
        }
    }

    /// The quest with id `quest_id`, to change in place.
    pub fn get_quest_mut(&mut self, quest_id: &str) -> (r: Option<&mut Quest>)
        requires
            old(self).wf(),
        ensures
            match r {
                Some(q) => {
                    &&& old(self).quest(quest_id@) == Some(*q)
                    &&& final(self).quest_seq() == old(self).quest_seq().update(
                        quest_index(old(self).quest_seq(), quest_id@),
                        *final(q),
                    )
                    &&& final(self).completed_quests == old(self).completed_quests
                },
                None => old(self).quest(quest_id@) is None && *final(self) == *old(self),
            },
    {
        match self.position(quest_id) {
            Some(i) => Some(&mut self.quests[i]),
            None => None,
        }
    }

    /// Starts the quest `quest_id`: it must be known, have its prerequisites
    /// completed, not be in progress, and not be completed unless it is
    /// repeatable. On success its state becomes in progress and nothing else
    /// changes; on failure nothing changes.
    pub fn start_quest(&mut self, quest_id: &str) -> (r: Result<String, String>)
        requires
            old(self).wf(),
        ensures
            final(self).wf(),
            started(*old(self), *final(self), quest_id@, r),
    {
        match self.position(quest_id) {
            None => Err(crate::text::concat("找不到任務: ", quest_id)),
            Some(i) => {
                if !self.quests[i].can_start(self.completed_quests.as_slice()) {
                    let mut e = String::from_str("未完成前置任務: ");
                    let d = debug_strings(&self.quests[i].prerequisites);
                    e.append(d.as_str());
                    return Err(e);
                }
                if self.quests[i].status == QuestStatus::InProgress {
                    return Err(String::from_str("任務已經在進行中"));
                }
                if self.quests[i].status == QuestStatus::Completed && !self.quests[i].repeatable {
                    return Err(String::from_str("任務已完成且不可重複"));
                }
                let ghost s = self.quests@;
                let mut q = self.quests.remove(i);
                q.status = QuestStatus::InProgress;
                let m = crate::text::concat("開始任務: ", q.name.as_str());
                self.quests.insert(i, q);
                proof {
                    assert(self.quests@ =~= s.update(i as int, with_status(s[i as int], QuestStatus::InProgress)));
                    let t = self.quests@;
                    assert forall|a: int, b: int| 0 <= a < t.len() && 0 <= b < t.len() && t[a].id@ == t[b].id@ implies a == b by {
                        assert(t[a].id@ == s[a].id@ && t[b].id@ == s[b].id@);
                    }
                }
                Ok(m)
            },
        }
    }

    /// Completes the quest `quest_id`: it must be known, in progress, and
    /// have every condition met. On success its state becomes completed, its
    /// id joins the completed quests unless already there, and its rewards
    /// are returned; on failure nothing changes.
    pub fn complete_quest(&mut self, quest_id: &str) -> (r: Result<Vec<QuestReward>, String>)
        requires
            old(self).wf(),
        ensures
            final(self).wf(),
            completed_with(*old(self), *final(self), quest_id@, r),
    {
        match self.position(quest_id) {
            None => Err(crate::text::concat("找不到任務: ", quest_id)),
            Some(i) => {
                if self.quests[i].status != QuestStatus::InProgress {
                    return Err(String::from_str("任務未在進行中"));
                }
                if !self.quests[i].check_conditions() {
                    return Err(String::from_str("任務條件未全部完成"));
                }
                let ghost s = self.quests@;
                let mut q = self.quests.remove(i);
                q.status = QuestStatus::Completed;
                if !contains_str(self.completed_quests.as_slice(), q.id.as_str()) {
                    let ghost before = self.completed_quests@;
                    self.completed_quests.push(q.id.clone());
                    proof {
                        assert(strs_view(self.completed_quests@) =~= strs_view(before).push(quest_id@));
                    }
                }
                let rewards = q.rewards.clone();
                self.quests.insert(i, q);
                proof {
                    assert(self.quests@ =~= s.update(i as int, with_status(s[i as int], QuestStatus::Completed)));
                    let t = self.quests@;
                    assert forall|a: int, b: int| 0 <= a < t.len() && 0 <= b < t.len() && t[a].id@ == t[b].id@ implies a == b by {
                        assert(t[a].id@ == s[a].id@ && t[b].id@ == s[b].id@);
                    }
                    assert(rewards@ =~= s[i as int].rewards@);
                }
                Ok(rewards)
            },
        }
    }

    /// Abandons the quest `quest_id`: it must be known and in progress. On
    /// success its state goes back to not started; on failure nothing
    /// changes.
    pub fn abandon_quest(&mut self, quest_id: &str) -> (r: Result<String, String>)
        requires
            old(self).wf(),
        ensures
            final(self).wf(),
            abandoned(*old(self), *final(self), quest_id@, r),
    {
        match self.position(quest_id) {
            None => Err(crate::text::concat("找不到任務: ", quest_id)),
            Some(i) => {
                if self.quests[i].status != QuestStatus::InProgress {
                    return Err(String::from_str("只能放棄進行中的任務"));
                }
                let ghost s = self.quests@;
                let mut q = self.quests.remove(i);
                q.status = QuestStatus::NotStarted;
                let m = crate::text::concat("已放棄任務: ", q.name.as_str());
                self.quests.insert(i, q);
                proof {
                    assert(self.quests@ =~= s.update(i as int, with_status(s[i as int], QuestStatus::NotStarted)));
                    let t = self.quests@;
                    assert forall|a: int, b: int| 0 <= a < t.len() && 0 <= b < t.len() && t[a].id@ == t[b].id@ implies a == b by {
                        assert(t[a].id@ == s[a].id@ && t[b].id@ == s[b].id@);
                    }
                }
                Ok(m)
            },
        }
    }

    /// The quests in progress, in the book's order.
    pub fn get_active_quests(&self) -> (r: Vec<&Quest>)
        ensures
            r@.map_values(|q: &Quest| *q) == self.quest_seq().filter(|q: Quest| is_active(q)),
    {
        let ghost s = self.quests@;
        let ghost pred = |q: Quest| is_active(q);
        let mut r: Vec<&Quest> = Vec::new();
        let mut i: usize = 0;
        proof {
            reveal_with_fuel(Seq::<_>::filter, 1);
            assert(s.take(0) =~= seq![]);
            assert(r@.map_values(|q: &Quest| *q) =~= s.take(0).filter(pred));
        }
        while i < self.quests.len()
            invariant
                i <= s.len(),
                s == self.quests@,
                pred == (|q: Quest| is_active(q)),
                r@.map_values(|q: &Quest| *q) == s.take(i as int).filter(pred),
            decreases s.len() - i,
        {
            proof {
                reveal_with_fuel(Seq::<_>::filter, 1);
                assert(s.take(i + 1).drop_last() =~= s.take(i as int));
            }
            let ghost before = r@;
            if self.quests[i].status == QuestStatus::InProgress {
                r.push(&self.quests[i]);
                proof {
                    assert(r@.map_values(|q: &Quest| *q) =~= before.map_values(|q: &Quest| *q).push(s[i as int]));
                }
            }
            i = i + 1;
        }
        proof {
            assert(s.take(s.len() as int) =~= s);
        }
        r
    }

    /// The quests that can be taken now, in the book's order.
    pub fn get_available_quests(&self) -> (r: Vec<&Quest>)
        ensures
            r@.map_values(|q: &Quest| *q) == self.quest_seq().filter(
                |q: Quest| is_available(q, self.completed_quests@),
            ),
    {
        let ghost s = self.quests@;
        let ghost pred = |q: Quest| is_available(q, self.completed_quests@);
        let mut r: Vec<&Quest> = Vec::new();
        let mut i: usize = 0;
        proof {
            reveal_with_fuel(Seq::<_>::filter, 1);
            assert(s.take(0) =~= seq![]);
            assert(r@.map_values(|q: &Quest| *q) =~= s.take(0).filter(pred));
        }
        while i < self.quests.len()
            invariant
                i <= s.len(),
                s == self.quests@,
                pred == (|q: Quest| is_available(q, self.completed_quests@)),
                r@.map_values(|q: &Quest| *q) == s.take(i as int).filter(pred),
            decreases s.len() - i,
        {
            proof {
                reveal_with_fuel(Seq::<_>::filter, 1);
                assert(s.take(i + 1).drop_last() =~= s.take(i as int));
            }
            let ghost before = r@;
            let q = &self.quests[i];
            let takeable = q.status == QuestStatus::NotStarted || (q.status == QuestStatus::Completed
                && q.repeatable);
            if takeable && q.can_start(self.completed_quests.as_slice()) {
                r.push(q);
                proof {
                    assert(r@.map_values(|q: &Quest| *q) =~= before.map_values(|q: &Quest| *q).push(s[i as int]));
                }
            }
            i = i + 1;
        }
        proof {
            assert(s.take(s.len() as int) =~= s);
        }
        r
    }

    /// The completed quests, in the book's order.
    pub fn get_completed_quests(&self) -> (r: Vec<&Quest>)
        ensures
            r@.map_values(|q: &Quest| *q) == self.quest_seq().filter(|q: Quest| is_completed(q)),
    {
        let ghost s = self.quests@;
        let ghost pred = |q: Quest| is_completed(q);
        let mut r: Vec<&Quest> = Vec::new();
        let mut i: usize = 0;
        proof {
            reveal_with_fuel(Seq::<_>::filter, 1);
            assert(s.take(0) =~= seq![]);
            assert(r@.map_values(|q: &Quest| *q) =~= s.take(0).filter(pred));
        }
        while i < self.quests.len()
            invariant
                i <= s.len(),
                s == self.quests@,
                pred == (|q: Quest| is_completed(q)),
                r@.map_values(|q: &Quest| *q) == s.take(i as int).filter(pred),
            decreases s.len() - i,
        {
            proof {
                reveal_with_fuel(Seq::<_>::filter, 1);
                assert(s.take(i + 1).drop_last() =~= s.take(i as int));
            }
            let ghost before = r@;
            if self.quests[i].status == QuestStatus::Completed {
                r.push(&self.quests[i]);
                proof {
                    assert(r@.map_values(|q: &Quest| *q) =~= before.map_values(|q: &Quest| *q).push(s[i as int]));
                }
            }
            i = i + 1;
        }
        proof {
            assert(s.take(s.len() as int) =~= s);
        }
        r
    }

    /// Whether the quest `quest_id` is in progress with every condition met.
    pub fn check_quest_progress(&mut self, quest_id: &str) -> (r: bool)
        requires
            old(self).wf(),
        ensures
            r == (old(self).quest(quest_id@) matches Some(q) && q.status == QuestStatus::InProgress
                && conditions_met(q)),
            *final(self) == *old(self),
    {
        match self.position(quest_id) {
            Some(i) => self.quests[i].status == QuestStatus::InProgress && self.quests[i].check_conditions(),
            None => false,
        }
    }
}

/// The quest with id `id` sits at one position only: any position holding
/// that id is the one that lookups find.
proof fn lemma_index_unique(s: Seq<Quest>, id: Seq<char>, i: int)
    requires
        ids_unique(s),
        0 <= i < s.len(),
        s[i].id@ == id,
    ensures
        has_quest(s, id),
        quest_index(s, id) == i,
        find_quest(s, id) == Some(s[i]),
{
    assert(has_quest(s, id));
    let k = quest_index(s, id);
    assert(s[k].id@ == id);
}

/// Putting a quest in a state keeps the ids unique, and reading it back
/// gives the quest in that state, at the same position.
pub proof fn law_status_read_back(s: Seq<Quest>, id: Seq<char>, st: QuestStatus)
    requires
        ids_unique(s),
        has_quest(s, id),
    ensures
        ids_unique(set_status_of(s, id, st)),
        quest_index(set_status_of(s, id, st), id) == quest_index(s, id),
        find_quest(set_status_of(s, id, st), id) == Some(with_status(find_quest(s, id)->0, st)),
        forall|other: Seq<char>| other != id ==> #[trigger] find_quest(set_status_of(s, id, st), other) == find_quest(s, other),
{
    let i = quest_index(s, id);
    let t = set_status_of(s, id, st);
    assert forall|a: int, b: int| 0 <= a < t.len() && 0 <= b < t.len() && t[a].id@ == t[b].id@ implies a == b by {
        assert(t[a].id@ == s[a].id@ && t[b].id@ == s[b].id@);
    }
    lemma_index_unique(t, id, i);
    assert forall|other: Seq<char>| other != id implies #[trigger] find_quest(t, other) == find_quest(s, other) by {
        if has_quest(s, other) {
            let k = quest_index(s, other);
            assert(t[k] == s[k]);
            lemma_index_unique(t, other, k);
        } else {
            if has_quest(t, other) {
                let k = quest_index(t, other);
                assert(s[k].id@ == t[k].id@);
            }
        }
    }
}

/// Abandoning a quest right after starting it gives back the quest book as
/// it was, when the quest had not been started before.
pub proof fn law_start_then_abandon(s: Seq<Quest>, id: Seq<char>)
    requires
        ids_unique(s),
        find_quest(s, id) matches Some(q) && q.status == QuestStatus::NotStarted,
    ensures
        set_status_of(set_status_of(s, id, QuestStatus::InProgress), id, QuestStatus::NotStarted) == s,
{
    let i = quest_index(s, id);
    law_status_read_back(s, id, QuestStatus::InProgress);
    let t = set_status_of(s, id, QuestStatus::InProgress);
    assert(set_status_of(t, id, QuestStatus::NotStarted) =~= s);
}

/// A quest in progress that is completed is no longer in progress, and its
/// id is among the completed quests afterwards, once.
pub proof fn law_completed_id_recorded_once(done: Seq<String>, id: Seq<char>)
    requires
        forall|i: int, j: int| 0 <= i < j < done.len() ==> done[i]@ != done[j]@,
    ensures
        ({
            let after = if holds_str(done, id) {
                strs_view(done)
            } else {
                strs_view(done).push(id)
            };
            &&& after.contains(id)
            &&& forall|i: int, j: int| 0 <= i < j < after.len() ==> after[i] != after[j]
        }),
{
    let v = strs_view(done);
    if holds_str(done, id) {
        let k = choose|k: int| 0 <= k < done.len() && done[k]@ == id;
        assert(v[k] == id);
    } else {
        let after = v.push(id);
        assert(after[v.len() as int] == id);
        assert forall|i: int, j: int| 0 <= i < j < after.len() implies after[i] != after[j] by {
            if j == v.len() {
                assert(after[i] == done[i]@);
            }
        }
    }
}

/// `after` is the quest book `before` after starting the quest
/// `quest_id`, which answered `r` (see [`QuestManager::start_quest`]).
pub open spec fn started(before: QuestManager, after: QuestManager, quest_id: Seq<char>, r: Result<String, String>) -> bool {
    &&& after.completed_quests == before.completed_quests
    &&& match before.quest(quest_id) {
        None => r matches Err(e) && e@ == "找不到任務: "@ + quest_id,
        Some(q) => if !prerequisites_met(q, before.completed_quests@) {
            r matches Err(e) && e@ == "未完成前置任務: "@ + debug_strings_text(
                strs_view(q.prerequisites@),
            )
        } else if q.status == QuestStatus::InProgress {
            r matches Err(e) && e@ == "任務已經在進行中"@
        } else if q.status == QuestStatus::Completed && !q.repeatable {
            r matches Err(e) && e@ == "任務已完成且不可重複"@
        } else {
            r matches Ok(m) && m@ == "開始任務: "@ + q.name@
        },
    }
    &&& r is Ok ==> after.quest_seq() == set_status_of(before.quest_seq(), quest_id, QuestStatus::InProgress)
    &&& r is Err ==> after.quest_seq() == before.quest_seq()
}

/// `after` is the quest book `before` after abandoning the quest
/// `quest_id`, which answered `r` (see [`QuestManager::abandon_quest`]).
pub open spec fn abandoned(before: QuestManager, after: QuestManager, quest_id: Seq<char>, r: Result<String, String>) -> bool {
    &&& after.completed_quests == before.completed_quests
    &&& match before.quest(quest_id) {
        None => r matches Err(e) && e@ == "找不到任務: "@ + quest_id,
        Some(q) => if q.status != QuestStatus::InProgress {
            r matches Err(e) && e@ == "只能放棄進行中的任務"@
        } else {
            r matches Ok(m) && m@ == "已放棄任務: "@ + q.name@
        },
    }
    &&& r is Ok ==> after.quest_seq() == set_status_of(before.quest_seq(), quest_id, QuestStatus::NotStarted)
    &&& r is Err ==> after.quest_seq() == before.quest_seq()
}

/// `after` is the quest book `before` after completing the quest
/// `quest_id`, which answered `r` (see [`QuestManager::complete_quest`]).
pub open spec fn completed_with(
    before: QuestManager,
    after: QuestManager,
    quest_id: Seq<char>,
    r: Result<Vec<QuestReward>, String>,
) -> bool {
    &&& match before.quest(quest_id) {
        None => r matches Err(e) && e@ == "找不到任務: "@ + quest_id,
        Some(q) => if q.status != QuestStatus::InProgress {
            r matches Err(e) && e@ == "任務未在進行中"@
        } else if !conditions_met(q) {
            r matches Err(e) && e@ == "任務條件未全部完成"@
        } else {
            r matches Ok(rw) && rw@ == q.rewards@
        },
    }
    &&& r is Ok ==> {
        &&& after.quest_seq() == set_status_of(before.quest_seq(), quest_id, QuestStatus::Completed)
        &&& strs_view(after.completed_quests@) == (if holds_str(before.completed_quests@, quest_id) {
            strs_view(before.completed_quests@)
        } else {
            strs_view(before.completed_quests@).push(quest_id)
        })
    }
    &&& r is Err ==> after.quest_seq() == before.quest_seq() && after.completed_quests == before.completed_quests
}

proof fn lemma_in_filter(s: Seq<Quest>, p: spec_fn(Quest) -> bool, q: Quest)
    requires
        s.filter(p).contains(q),
    ensures
        p(q),
        s.contains(q),
{
    broadcast use vstd::seq_lib::group_filter_ensures;
    s.lemma_filter_contains_rev(p, q);
    let k = choose|k: int| 0 <= k < s.filter(p).len() && s.filter(p)[k] == q;
    assert(p(s.filter(p)[k]));
}

/// Each quest in the list of those one can take (see
/// [`QuestManager::get_available_quests`]) starts when asked to (see
/// [`QuestManager::start_quest`]).
pub proof fn law_available_quest_starts(m: QuestManager, q: Quest, after: QuestManager, r: Result<String, String>)
    requires
        m.wf(),
        m.quest_seq().filter(|x: Quest| is_available(x, m.completed_quests@)).contains(q),
        started(m, after, q.id@, r),
    ensures
        r is Ok,
        after.quest(q.id@) == Some(with_status(q, QuestStatus::InProgress)),
{
    let s = m.quest_seq();
    lemma_in_filter(s, |x: Quest| is_available(x, m.completed_quests@), q);
    let i = choose|i: int| 0 <= i < s.len() && s[i] == q;
    assert(has_quest(s, q.id@));
    assert(quest_index(s, q.id@) == i);
    assert(m.quest(q.id@) == Some(q));
    law_status_read_back(s, q.id@, QuestStatus::InProgress);
}

/// No quest is listed both as in progress (see
/// [`QuestManager::get_active_quests`]) and as one to take or as completed.
pub proof fn law_active_quests_apart(m: QuestManager, q: Quest)
    requires
        m.quest_seq().filter(|x: Quest| is_active(x)).contains(q),
    ensures
        !m.quest_seq().filter(|x: Quest| is_available(x, m.completed_quests@)).contains(q),
        !m.quest_seq().filter(|x: Quest| is_completed(x)).contains(q),
{
    let s = m.quest_seq();
    lemma_in_filter(s, |x: Quest| is_active(x), q);
    if s.filter(|x: Quest| is_available(x, m.completed_quests@)).contains(q) {
        lemma_in_filter(s, |x: Quest| is_available(x, m.completed_quests@), q);
    }
    if s.filter(|x: Quest| is_completed(x)).contains(q) {
        lemma_in_filter(s, |x: Quest| is_completed(x), q);
    }
}

proof fn lemma_filter_ids_unique(s: Seq<Quest>, p: spec_fn(Quest) -> bool)
    requires
        ids_unique(s),
    ensures
        ids_unique(s.filter(p)),
    decreases s.len(),
{
    if s.len() > 0 {
        let t = s.drop_last();
        assert(ids_unique(t)) by {
            assert forall|i: int, j: int| 0 <= i < t.len() && 0 <= j < t.len() && t[i].id@ == t[j].id@ implies i == j by {
                assert(t[i] == s[i] && t[j] == s[j]);
            }
        }
        lemma_filter_ids_unique(t, p);
        reveal_with_fuel(Seq::filter, 1);
        if p(s.last()) {
            let f = t.filter(p);
            let l = s.last();
            assert forall|k: int| 0 <= k < f.len() implies (#[trigger] f[k]).id@ != l.id@ by {
                broadcast use vstd::seq_lib::group_filter_ensures;
                assert(f.contains(f[k]));
                t.lemma_filter_contains_rev(p, f[k]);
                let j = choose|j: int| 0 <= j < t.len() && t[j] == f[k];
                assert(t[j] == s[j]);
            }
            assert forall|i: int, j: int|
                0 <= i < f.push(l).len() && 0 <= j < f.push(l).len() && f.push(l)[i].id@ == f.push(l)[j].id@ implies i
                == j by {
                if i < f.len() && j == f.len() {
                    assert(f.push(l)[i] == f[i]);
                } else if j < f.len() && i == f.len() {
                    assert(f.push(l)[j] == f[j]);
                } else if i < f.len() && j < f.len() {
                    assert(f.push(l)[i] == f[i] && f.push(l)[j] == f[j]);
                }
            }
        }
    }
}

/// The list of quests one can take (see
/// [`QuestManager::get_available_quests`]) holds each quest of the book
/// that can be taken, and no id twice.
pub proof fn law_available_quests_once(m: QuestManager)
    requires
        m.wf(),
    ensures
        ids_unique(m.quest_seq().filter(|x: Quest| is_available(x, m.completed_quests@))),
        forall|i: int|
            0 <= i < m.quest_seq().len() && is_available(m.quest_seq()[i], m.completed_quests@) ==> m.quest_seq().filter(
                |x: Quest| is_available(x, m.completed_quests@),
            ).contains(#[trigger] m.quest_seq()[i]),
{
    broadcast use vstd::seq_lib::group_filter_ensures;
    lemma_filter_ids_unique(m.quest_seq(), |x: Quest| is_available(x, m.completed_quests@));
}

/// The list of quests in progress (see [`QuestManager::get_active_quests`])
/// holds each quest of the book in progress, and no id twice.
pub proof fn law_active_quests_once(m: QuestManager)
    requires
        m.wf(),
    ensures
        ids_unique(m.quest_seq().filter(|x: Quest| is_active(x))),
        forall|i: int|
            0 <= i < m.quest_seq().len() && is_active(m.quest_seq()[i]) ==> m.quest_seq().filter(|x: Quest| is_active(x)).contains(
                #[trigger] m.quest_seq()[i],
            ),
{
    broadcast use vstd::seq_lib::group_filter_ensures;
    lemma_filter_ids_unique(m.quest_seq(), |x: Quest| is_active(x));
}

/// A condition that carries a completion flag (talking to an NPC, holding
/// items, reaching a place, a player stat, a relationship) is met exactly
/// when its flag is set; a kill condition is met once the kills reach the
/// count.
pub proof fn law_condition_met_by_flag(c: QuestCondition)
    ensures
        c matches QuestCondition::TalkToNpc { completed, .. } ==> (condition_done(c) <==> completed),
        c matches QuestCondition::HasItem { completed, .. } ==> (condition_done(c) <==> completed),
        c matches QuestCondition::ReachLocation { completed, .. } ==> (condition_done(c) <==> completed),
        c matches QuestCondition::PlayerStat { completed, .. } ==> (condition_done(c) <==> completed),
        c matches QuestCondition::NpcRelationship { completed, .. } ==> (condition_done(c) <==> completed),
        c matches QuestCondition::KillEnemy { count, current, .. } ==> (condition_done(c) <==> current >= count),
{
}

/// A quest in progress with one condition whose completion flag is not set
/// is not finished: its conditions are not all met (see
/// [`Quest::check_conditions`]), and completing it (see
/// [`QuestManager::complete_quest`]) is refused with "任務條件未全部完成",
/// leaving the quest book as it was.
pub proof fn law_unset_flag_blocks_completion(
    before: QuestManager,
    after: QuestManager,
    q: Quest,
    i: int,
    r: Result<Vec<QuestReward>, String>,
)
    requires
        before.quest(q.id@) == Some(q),
        q.status == QuestStatus::InProgress,
        0 <= i < q.conditions@.len(),
        (q.conditions@[i] matches QuestCondition::TalkToNpc { completed, .. } && !completed)
            || (q.conditions@[i] matches QuestCondition::HasItem { completed, .. } && !completed)
            || (q.conditions@[i] matches QuestCondition::ReachLocation { completed, .. } && !completed)
            || (q.conditions@[i] matches QuestCondition::PlayerStat { completed, .. } && !completed)
            || (q.conditions@[i] matches QuestCondition::NpcRelationship { completed, .. } && !completed),
        completed_with(before, after, q.id@, r),
    ensures
        !conditions_met(q),
        r matches Err(e) && e@ == "任務條件未全部完成"@,
        after.quest_seq() == before.quest_seq(),
        after.completed_quests == before.completed_quests,
{
    law_condition_met_by_flag(q.conditions@[i]);
}

} // verus!
