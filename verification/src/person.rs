//! Parts of a person's description and dialogue that stand on plain
//! values: attribute ranges, dialogue conditions and combat skills.
use vstd::prelude::*;
use crate::inventory::{taken, total_of, Inventory};
use crate::random::random_below;
use crate::time_updatable::TimeInfo;
use crate::text::{
    chars_of, decimal, decimal_string, find_text, push_char, first_occurrence, parse_i32, parse_i32_spec, push_decimal, push_signed,
    signed_decimal, signed_string, split_on, split_on_char, str_eq, string_of, strs_view, trim, trim_text,
};

verus! {

/// The description of the values `min..=max` of an attribute.
pub struct AttributeRange {
    pub min: i32,
    pub max: i32,
    pub description: String,
}

/// The descriptions of an attribute's values, range by range.
pub struct AttributeRanges {
    pub ranges: Vec<AttributeRange>,
}

/// The first range of `ranges` that holds `value`, if any.
pub open spec fn first_range_with(ranges: Seq<AttributeRange>, value: i32) -> Option<int>
    decreases ranges.len(),
{
    if ranges.len() == 0 {
        None
    } else if ranges[0].min <= value && value <= ranges[0].max {
        Some(0)
    } else {
        match first_range_with(ranges.drop_first(), value) {
            Some(k) => Some(k + 1),
            None => None,
        }
    }
}

impl AttributeRanges {
    /// The description of the first range that holds `value`, if any.
    pub fn description_for(&self, value: i32) -> (r: Option<String>)
        ensures
            match first_range_with(self.ranges@, value) {
                Some(k) => r matches Some(d) && d@ == self.ranges@[k].description@,
                None => r is None,
            },
    {
        let mut i: usize = 0;
        proof {
            assert(self.ranges@.skip(0) =~= self.ranges@);
        }
        while i < self.ranges.len()
            invariant
                i <= self.ranges@.len(),
                first_range_with(self.ranges@, value) == match first_range_with(
                    self.ranges@.skip(i as int),
                    value,
                ) {
                    Some(k) => Some(k + i),
                    None => None::<int>,
                },
            decreases self.ranges@.len() - i,
        {
            let range = &self.ranges[i];
            proof {
                assert(self.ranges@.skip(i as int)[0] == self.ranges@[i as int]);
                assert(self.ranges@.skip(i as int).drop_first() =~= self.ranges@.skip(i + 1));
            }
            if value >= range.min && value <= range.max {
                return Some(range.description.clone());
            }
            i = i + 1;
        }
        None
    }
}

/// A condition on a person's attribute that a line of dialogue needs.
#[derive(Clone, Debug)]
pub struct DialogueCondition {
    /// The attribute: hp, mp, strength, 顏值, 性別, item:<name> and so on.
    pub attribute: String,
    /// The comparison: >, <, >=, <=, =, ==, !=.
    pub operator: String,
    /// The value compared with, a number or a word.
    pub value: String,
}

/// Whether the attribute's value `attr` stands in the relation `op` to
/// `value`: the ordering operators compare the two as `i32` numbers and
/// fail when either is not one; `=`, `==` and `!=` compare the texts; any
/// other operator fails.
pub open spec fn condition_holds(attr: Seq<char>, op: Seq<char>, value: Seq<char>) -> bool {
    if op == ">"@ || op == "<"@ || op == ">="@ || op == "<="@ {
        match (parse_i32_spec(attr), parse_i32_spec(value)) {
            (Some(a), Some(b)) => if op == ">"@ {
                a > b
            } else if op == "<"@ {
                a < b
            } else if op == ">="@ {
                a >= b
            } else {
                a <= b
            },
            _ => false,
        }
    } else if op == "="@ || op == "=="@ {
        attr == value
    } else if op == "!="@ {
        attr != value
    } else {
        false
    }
}

impl DialogueCondition {
    /// Whether the condition holds of an attribute whose value reads
    /// `attr_value`.
    pub fn holds_for(&self, attr_value: &str) -> (r: bool)
        ensures
            r == condition_holds(attr_value@, self.operator@, self.value@),
    {
        let op = self.operator.as_str();
        proof {
            reveal_strlit(">");
            reveal_strlit("<");
            reveal_strlit(">=");
            reveal_strlit("<=");
            reveal_strlit("=");
            reveal_strlit("==");
            reveal_strlit("!=");
        }
        if str_eq(op, ">") || str_eq(op, "<") || str_eq(op, ">=") || str_eq(op, "<=") {
            match (parse_i32(attr_value), parse_i32(self.value.as_str())) {
                (Some(a), Some(b)) => {
                    if str_eq(op, ">") {
                        a > b
                    } else if str_eq(op, "<") {
                        a < b
                    } else if str_eq(op, ">=") {
                        a >= b
                    } else {
                        a <= b
                    }
                },
                _ => false,
            }
        } else if str_eq(op, "=") || str_eq(op, "==") {
            str_eq(attr_value, self.value.as_str())
        } else if str_eq(op, "!=") {
            !str_eq(attr_value, self.value.as_str())
        } else {
            false
        }
    }
}

/// A fighting move and how well it is known.
#[derive(Clone, Debug)]
pub struct CombatSkill {
    pub name: String,
    pub proficiency: i32,
    pub damage: i32,
    /// Rounds to wait after use.
    pub cooldown: i32,
    /// Rounds still to wait.
    pub current_cooldown: i32,
}

/// `a / d` rounded toward zero, as Rust divides integers.
pub open spec fn div_toward_zero(a: int, d: int) -> int {
    if a >= 0 {
        a / d
    } else {
        -((-a) / d)
    }
}

/// `v` kept within `lo..=hi`.
pub open spec fn clamp_int(v: int, lo: int, hi: int) -> int {
    if v < lo {
        lo
    } else if v > hi {
        hi
    } else {
        v
    }
}

/// The liking after changing `relationship` by `delta`, kept within
/// -100..=100.
pub fn relationship_after(relationship: i32, delta: i32) -> (r: i32)
    requires
        i32::MIN <= relationship + delta <= i32::MAX,
    ensures
        r == clamp_int(relationship + delta, -100, 100),
{
    let v = relationship + delta;
    if v < -100 {
        -100
    } else if v > 100 {
        100
    } else {
        v
    }
}

/// The stage of acquaintance that a liking `r` puts a person at.
pub open spec fn dialogue_state_text(r: i32) -> Seq<char> {
    if r >= 70 {
        "摯友"@
    } else if r >= 30 {
        "好友"@
    } else if r >= 0 {
        "普通"@
    } else if r >= -30 {
        "冷淡"@
    } else {
        "敵對"@
    }
}

/// The stage of acquaintance that a liking puts a person at: 摯友 from 70,
/// 好友 from 30, 普通 from 0, 冷淡 from -30, and 敵對 below.
pub fn dialogue_state_for(relationship: i32) -> (r: &'static str)
    ensures
        r@ == dialogue_state_text(relationship),
{
    if relationship >= 70 {
        "摯友"
    } else if relationship >= 30 {
        "好友"
    } else if relationship >= 0 {
        "普通"
    } else if relationship >= -30 {
        "冷淡"
    } else {
        "敵對"
    }
}

/// The stage of acquaintance with the liking in brackets.
pub fn relationship_description(relationship: i32) -> (r: String)
    ensures
        r@ == dialogue_state_text(relationship) + " ("@ + signed_decimal(relationship as int) + ")"@,
{
    let mut r = String::from_str(dialogue_state_for(relationship));
    r.append(" (");
    push_signed(&mut r, relationship as i64);
    r.append(")");
    r
}

/// The health and the status words after changing health `hp` by `amount`
/// with the most health `max_hp`: health kept at 0 or more and at most
/// `max_hp`, and the status by what is left.
pub open spec fn hp_check(hp: i32, max_hp: i32, amount: i32) -> (int, Seq<char>) {
    let raised = hp + amount;
    let low = if raised < 0 {
        0
    } else {
        raised
    };
    let v = if low > max_hp {
        max_hp as int
    } else {
        low
    };
    let status = if v <= div_toward_zero(max_hp as int, 10) && v > max_hp {
        "覺得有點累了"@
    } else if v <= div_toward_zero(max_hp as int, 4) {
        "感到疲憊"@
    } else if v <= 50 {
        "精疲力盡"@
    } else {
        "正常"@
    };
    (v, status)
}

/// Health changed by any amount stays between 0 and the most health.
pub proof fn law_health_within_bounds(hp: i32, max_hp: i32, amount: i32)
    requires
        max_hp >= 0,
    ensures
        0 <= hp_check(hp, max_hp, amount).0 <= max_hp,
{
}

/// Changes health `hp` by `amount` (see [`hp_check`]): the new health and
/// status words.
pub fn check_hp(hp: i32, max_hp: i32, amount: i32) -> (r: (i32, &'static str))
    requires
        i32::MIN <= hp + amount <= i32::MAX,
    ensures
        r.0 == hp_check(hp, max_hp, amount).0,
        r.1@ == hp_check(hp, max_hp, amount).1,
{
    let mut v = hp + amount;
    if v < 0 {
        v = 0;
    }
    if v > max_hp {
        v = max_hp;
    }
    let status = if v <= max_hp / 10 && v > max_hp {
        "覺得有點累了"
    } else if v <= max_hp / 4 {
        "感到疲憊"
    } else if v <= 50 {
        "精疲力盡"
    } else {
        "正常"
    };
    (v, status)
}

/// Changes will power `mp` by `amount`, kept at 0 or more; the second part
/// says whether the person falls asleep (at 50 or less).
pub fn check_mp(mp: i32, amount: i32) -> (r: (i32, bool))
    requires
        i32::MIN <= mp + amount <= i32::MAX,
    ensures
        r.0 == (if mp + amount < 0 {
            0
        } else {
            mp + amount
        }),
        r.1 == (r.0 <= 50),
{
    let mut v = mp + amount;
    if v < 0 {
        v = 0;
    }
    (v, v <= 50)
}

/// A person may start a fight with at least half of their most health.
pub fn can_start_combat(hp: i32, max_hp: i32) -> (r: bool)
    ensures
        r == (hp >= div_toward_zero(max_hp as int, 2)),
{
    hp >= max_hp / 2
}

/// The word for a person of `gender` in a description: 男子 for a man,
/// 女子 for a woman, 人 otherwise.
pub open spec fn gender_text(gender: Seq<char>) -> Seq<char> {
    if gender == "男"@ || gender == "male"@ || gender == "男性"@ {
        "男子"@
    } else if gender == "女"@ || gender == "female"@ || gender == "女性"@ {
        "女子"@
    } else {
        "人"@
    }
}

/// The word for a person of `gender` in a description.
pub fn gender_word(gender: &str) -> (r: &'static str)
    ensures
        r@ == gender_text(gender@),
{
    if str_eq(gender, "男") || str_eq(gender, "male") || str_eq(gender, "男性") {
        "男子"
    } else if str_eq(gender, "女") || str_eq(gender, "female") || str_eq(gender, "女性") {
        "女子"
    } else {
        "人"
    }
}

impl CombatSkill {
    /// One round passes: a cooling skill has one round less to wait.
    pub fn reduce_cooldown(&mut self)
        ensures
            *final(self) == (CombatSkill {
                current_cooldown: if old(self).current_cooldown > 0 {
                    (old(self).current_cooldown - 1) as i32
                } else {
                    old(self).current_cooldown
                },
                ..*old(self)
            }),
    {
        if self.current_cooldown > 0 {
            self.current_cooldown = self.current_cooldown - 1;
        }
    }
}

/// The liking stays within -100..=100 after any change, and a change by
/// nothing keeps a liking in that range as it is.
pub proof fn law_relationship_stays_in_range(relationship: i32, delta: i32)
    ensures
        -100 <= clamp_int(relationship + delta, -100, 100) <= 100,
        -100 <= relationship <= 100 && delta == 0 ==> clamp_int(relationship + delta, -100, 100) == relationship,
{
}

/// The comparison operators of a written condition, longest first so that
/// `>=` is not read as `>`.
pub open spec fn dialogue_ops() -> Seq<Seq<char>> {
    seq![">="@, "<="@, "!="@, ">"@, "<"@, "="@]
}

/// The condition that the trimmed piece `t` reads as, trying the
/// operators from the `k`-th on: at the first operator found, the trimmed
/// text before and after it, when neither is empty.
pub open spec fn condition_from(t: Seq<char>, k: nat) -> Option<(Seq<char>, Seq<char>, Seq<char>)>
    decreases 6 - k,
{
    if k >= 6 {
        None
    } else {
        let op = dialogue_ops()[k as int];
        match first_occurrence(t, op) {
            Some(pos) => {
                let a = trim(t.take(pos));
                let v = trim(t.skip(pos + op.len()));
                if a.len() > 0 && v.len() > 0 {
                    Some((a, op, v))
                } else {
                    None
                }
            },
            None => condition_from(t, k + 1),
        }
    }
}

/// The conditions that the comma-separated pieces `pieces` read as, in
/// order; empty pieces and pieces that do not read are skipped.
pub open spec fn conditions_of(pieces: Seq<Seq<char>>) -> Seq<(Seq<char>, Seq<char>, Seq<char>)>
    decreases pieces.len(),
{
    if pieces.len() == 0 {
        Seq::empty()
    } else {
        let prev = conditions_of(pieces.drop_last());
        let t = trim(pieces.last());
        if t.len() == 0 {
            prev
        } else {
            match condition_from(t, 0) {
                Some(c) => prev.push(c),
                None => prev,
            }
        }
    }
}

/// The attribute, operator and value of a condition.
pub open spec fn condition_view(c: DialogueCondition) -> (Seq<char>, Seq<char>, Seq<char>) {
    (c.attribute@, c.operator@, c.value@)
}

fn op_at(k: usize) -> (r: &'static str)
    requires
        k < 6,
    ensures
        r@ == dialogue_ops()[k as int],
{
    if k == 0 {
        ">="
    } else if k == 1 {
        "<="
    } else if k == 2 {
        "!="
    } else if k == 3 {
        ">"
    } else if k == 4 {
        "<"
    } else {
        "="
    }
}

fn condition_at(t: &str, tc: &Vec<char>, op: &str, pos: usize) -> (r: Option<DialogueCondition>)
    requires
        tc@ == t@,
        pos + op@.len() <= tc@.len(),
    ensures
        match r {
            Some(c) => {
                &&& trim(t@.take(pos as int)).len() > 0
                &&& trim(t@.skip(pos + op@.len())).len() > 0
                &&& condition_view(c) == (trim(t@.take(pos as int)), op@, trim(t@.skip(pos + op@.len())))
            },
            None => !(trim(t@.take(pos as int)).len() > 0 && trim(t@.skip(pos + op@.len())).len() > 0),
        },
{
    let oplen = op.unicode_len();
    let n = tc.len();
    let before = string_of(tc, 0, pos);
    let after = string_of(tc, pos + oplen, n);
    proof {
        assert(before@ =~= t@.take(pos as int));
        assert(after@ =~= t@.skip(pos + op@.len()));
    }
    let attribute = trim_text(before.as_str());
    let value = trim_text(after.as_str());
    if attribute.as_str().unicode_len() > 0 && value.as_str().unicode_len() > 0 {
        Some(DialogueCondition { attribute, operator: String::from_str(op), value })
    } else {
        None
    }
}

fn condition_of_piece(t: &str) -> (r: Option<DialogueCondition>)
    ensures
        match r {
            Some(c) => condition_from(t@, 0) == Some(condition_view(c)),
            None => condition_from(t@, 0) is None,
        },
{
    let tc = chars_of(t);
    let mut k: usize = 0;
    while k < 6
        invariant
            tc@ == t@,
            k <= 6,
            condition_from(t@, 0) == condition_from(t@, k as nat),
        decreases 6 - k,
    {
        let op = op_at(k);
        match find_text(&tc, op) {
            Some(pos) => {
                return condition_at(t, &tc, op, pos);
            },
            None => {},
        }
        k = k + 1;
    }
    None
}

/// The conditions written in `conditions_str` as comma-separated
/// `attribute operator value` pieces, for example `hp>50,顏值>=60` (see
/// [`conditions_of`]).
pub fn parse_dialogue_conditions(conditions_str: &str) -> (r: Vec<DialogueCondition>)
    ensures
        r@.map_values(|c: DialogueCondition| condition_view(c)) == conditions_of(split_on(conditions_str@, ',')),
{
    let pieces = split_on_char(conditions_str, ',');
    let ghost pv = strs_view(pieces@);
    let mut conditions: Vec<DialogueCondition> = Vec::new();
    let mut i: usize = 0;
    proof {
        assert(pv.take(0) =~= Seq::<Seq<char>>::empty());
        assert(conditions@.map_values(|c: DialogueCondition| condition_view(c)) =~= conditions_of(pv.take(0)));
    }
    while i < pieces.len()
        invariant
            i <= pieces@.len(),
            pv == strs_view(pieces@),
            pv == split_on(conditions_str@, ','),
            conditions@.map_values(|c: DialogueCondition| condition_view(c)) == conditions_of(pv.take(i as int)),
        decreases pieces@.len() - i,
    {
        let t = trim_text(pieces[i].as_str());
        let ghost cur = pv.take(i + 1);
        proof {
            assert(cur.drop_last() =~= pv.take(i as int));
            assert(cur.last() == pieces@[i as int]@);
        }
        if t.as_str().unicode_len() > 0 {
            match condition_of_piece(t.as_str()) {
                Some(c) => {
                    let ghost before = conditions@;
                    let ghost cv = condition_view(c);
                    conditions.push(c);
                    proof {
                        assert(conditions@.map_values(|c: DialogueCondition| condition_view(c)) =~= before.map_values(
                            |c: DialogueCondition| condition_view(c),
                        ).push(cv));
                    }
                },
                None => {},
            }
        }
        i = i + 1;
    }
    proof {
        assert(pv.take(pv.len() as int) =~= pv);
    }
    conditions
}


/// `i` is the position of the first entry of `s` keyed `k`.
pub open spec fn is_first_key<V>(s: Seq<(String, V)>, k: Seq<char>, i: int) -> bool {
    &&& 0 <= i < s.len()
    &&& s[i].0@ == k
    &&& forall|j: int| 0 <= j < i ==> s[j].0@ != k
}

/// The position of the first entry of `s` keyed `k`, when there is one.
pub open spec fn key_position<V>(s: Seq<(String, V)>, k: Seq<char>) -> Option<int> {
    if exists|i: int| is_first_key(s, k, i) {
        Some(choose|i: int| is_first_key(s, k, i))
    } else {
        None
    }
}

/// The value of the first entry of `s` keyed `k`, when there is one.
pub open spec fn value_at_key<V>(s: Seq<(String, V)>, k: Seq<char>) -> Option<V> {
    match key_position(s, k) {
        Some(i) => Some(s[i].1),
        None => None,
    }
}

pub proof fn lemma_first_key<V>(s: Seq<(String, V)>, k: Seq<char>, i: int)
    requires
        is_first_key(s, k, i),
    ensures
        key_position(s, k) == Some(i),
{
    let c = choose|c: int| is_first_key(s, k, c);
    if c < i {
        assert(s[c].0@ != k);
    } else if c > i {
        assert(s[i].0@ != k);
    }
}

/// A key that occurs has a first occurrence.
pub proof fn lemma_key_found<V>(s: Seq<(String, V)>, k: Seq<char>, j: int)
    requires
        0 <= j < s.len(),
        s[j].0@ == k,
    ensures
        key_position(s, k) is Some,
    decreases j,
{
    if exists|m: int| 0 <= m < j && s[m].0@ == k {
        let m = choose|m: int| 0 <= m < j && s[m].0@ == k;
        lemma_key_found(s, k, m);
    } else {
        assert(is_first_key(s, k, j));
    }
}

pub proof fn lemma_no_key<V>(s: Seq<(String, V)>, k: Seq<char>)
    requires
        forall|j: int| 0 <= j < s.len() ==> s[j].0@ != k,
    ensures
        key_position(s, k) is None,
{
}

/// The position of the first entry of `s` keyed `k`.
pub fn find_key<V>(s: &Vec<(String, V)>, k: &str) -> (r: Option<usize>)
    ensures
        match r {
            Some(i) => key_position(s@, k@) == Some(i as int) && is_first_key(s@, k@, i as int),
            None => key_position(s@, k@) is None && forall|j: int| 0 <= j < s@.len() ==> s@[j].0@ != k@,
        },
{
    let mut i: usize = 0;
    while i < s.len()
        invariant
            i <= s@.len(),
            forall|j: int| 0 <= j < i ==> s@[j].0@ != k@,
        decreases s@.len() - i,
    {
        if str_eq(s[i].0.as_str(), k) {
            proof {
                lemma_first_key(s@, k@, i as int);
            }
            return Some(i);
        }
        i = i + 1;
    }
    proof {
        lemma_no_key(s@, k@);
    }
    None
}

/// How a share of the most health is described: a health of at most
/// `hp_ratio` thousandths of it (1000 is all of it).
#[derive(Clone, Debug)]
pub struct HealthStatusRange {
    pub hp_ratio: u32,
    pub description: String,
}

/// The descriptions of health, from the lowest share up.
pub struct HealthStatusRanges {
    pub ranges: Vec<HealthStatusRange>,
}

/// The words that describe a person's looks, build, strength and health.
pub struct PersonDescriptions {
    /// The words for each value of the looks, keyed by the value written
    /// as a number ("1" to "100").
    pub appearance: Vec<(String, String)>,
    pub strength: AttributeRanges,
    pub build: AttributeRanges,
    pub health_status: HealthStatusRanges,
}

/// A health of `hp` out of `max_hp` is within the share `range`.
pub open spec fn health_within(range: HealthStatusRange, hp: i32, max_hp: i32) -> bool {
    hp * 1000 <= range.hp_ratio * max_hp
}

/// `k` is the first range of `ranges` within which a health of `hp` out
/// of `max_hp` lies.
pub open spec fn is_first_health(ranges: Seq<HealthStatusRange>, hp: i32, max_hp: i32, k: int) -> bool {
    &&& 0 <= k < ranges.len()
    &&& health_within(ranges[k], hp, max_hp)
    &&& forall|j: int| 0 <= j < k ==> !health_within(ranges[j], hp, max_hp)
}

/// The words of a range of `d`, or `default` when none holds `value`.
pub open spec fn range_words(d: AttributeRanges, value: i32, default: Seq<char>) -> Seq<char> {
    match first_range_with(d.ranges@, value) {
        Some(k) => d.ranges@[k].description@,
        None => default,
    }
}

impl PersonDescriptions {
    /// The words for looks of `appearance`, taken within 1..=100; 普通的
    /// when the table has none.
    pub open spec fn appearance_words(&self, appearance: i32) -> Seq<char> {
        match value_at_key(self.appearance@, signed_decimal(clamp_int(appearance as int, 1, 100))) {
            Some(d) => d@,
            None => "普通的"@,
        }
    }

    pub open spec fn strength_words(&self, strength: i32) -> Seq<char> {
        range_words(self.strength, strength, "普通的"@)
    }

    pub open spec fn build_words(&self, build: i32) -> Seq<char> {
        range_words(self.build, build, "普通"@)
    }

    /// The words of the first health range within which `hp` out of
    /// `max_hp` lies; 健康的 past them all, 未知 without a most health.
    pub open spec fn health_words(&self, hp: i32, max_hp: i32) -> Seq<char> {
        let rs = self.health_status.ranges@;
        if max_hp <= 0 {
            "未知"@
        } else if exists|k: int| is_first_health(rs, hp, max_hp, k) {
            rs[choose|k: int| is_first_health(rs, hp, max_hp, k)].description@
        } else {
            "健康的"@
        }
    }

    /// The words for looks of `appearance` (see [`Self::appearance_words`]).
    pub fn get_appearance_description(&self, appearance: i32) -> (r: String)
        ensures
            r@ == self.appearance_words(appearance),
    {
        let clamped: i32 = if appearance < 1 {
            1
        } else if appearance > 100 {
            100
        } else {
            appearance
        };
        let key = signed_string(clamped as i64);
        match find_key(&self.appearance, key.as_str()) {
            Some(i) => self.appearance[i].1.clone(),
            None => String::from_str("普通的"),
        }
    }

    /// The words of the strength range holding `strength`; 普通的 when none
    /// does.
    pub fn get_strength_description(&self, strength: i32) -> (r: String)
        ensures
            r@ == self.strength_words(strength),
    {
        match self.strength.description_for(strength) {
            Some(d) => d,
            None => String::from_str("普通的"),
        }
    }

    /// The words of the build range holding `build`; 普通 when none does.
    pub fn get_build_description(&self, build: i32) -> (r: String)
        ensures
            r@ == self.build_words(build),
    {
        match self.build.description_for(build) {
            Some(d) => d,
            None => String::from_str("普通"),
        }
    }

    /// The words for a health of `hp` out of `max_hp` (see
    /// [`Self::health_words`]).
    pub fn get_health_status_description(&self, hp: i32, max_hp: i32) -> (r: String)
        ensures
            r@ == self.health_words(hp, max_hp),
    {
        if max_hp <= 0 {
            return String::from_str("未知");
        }
        let ghost rs = self.health_status.ranges@;
        let mut i: usize = 0;
        while i < self.health_status.ranges.len()
            invariant
                rs == self.health_status.ranges@,
                i <= rs.len(),
                max_hp > 0,
                forall|j: int| 0 <= j < i ==> !health_within(rs[j], hp, max_hp),
            decreases rs.len() - i,
        {
            let range = &self.health_status.ranges[i];
            proof {
                let a = range.hp_ratio as int;
                let b = max_hp as int;
                assert(0 <= a * b <= 0x1_0000_0000 * 0x8000_0000) by (nonlinear_arith)
                    requires
                        0 <= a <= 0xffff_ffff,
                        0 < b <= 0x7fff_ffff,
                ;
            }
            if (hp as i128) * 1000 <= (range.hp_ratio as i128) * (max_hp as i128) {
                proof {
                    assert(is_first_health(rs, hp, max_hp, i as int));
                    let c = choose|c: int| is_first_health(rs, hp, max_hp, c);
                    if c < i {
                        assert(!health_within(rs[c], hp, max_hp));
                    } else if c > i {
                        assert(!health_within(rs[i as int], hp, max_hp));
                    }
                }
                return range.description.clone();
            }
            i = i + 1;
        }
        String::from_str("健康的")
    }
}


/// A line of dialogue with the conditions it needs (all of them) and its
/// weight.
#[derive(Clone, Debug)]
pub struct DialogueOption {
    pub text: String,
    pub conditions: Vec<DialogueCondition>,
    /// The base weight in thousandths: 1000 stands for a weight of 1.
    pub weight: u32,
}

impl DialogueOption {
    /// A line with no conditions and a weight of 1.
    pub fn new(text: String) -> (r: Self)
        ensures
            r.text == text,
            r.conditions@.len() == 0,
            r.weight == 1000,
    {
        DialogueOption { text, conditions: Vec::new(), weight: 1000 }
    }

    /// A line with `conditions` and a weight of 1.
    pub fn with_conditions(text: String, conditions: Vec<DialogueCondition>) -> (r: Self)
        ensures
            r.text == text,
            r.conditions == conditions,
            r.weight == 1000,
    {
        DialogueOption { text, conditions, weight: 1000 }
    }
}

/// A person of the world, the player among them.
#[derive(Clone)]
pub struct Person {
    pub name: String,
    pub description: String,
    pub abilities: Vec<String>,
    pub items: Inventory,
    pub status: String,
    pub x: usize,
    pub y: usize,
    /// The map the person is on.
    pub map: String,
    pub hp: i32,
    pub mp: i32,
    pub max_hp: i32,
    pub max_mp: i32,
    pub strength: i32,
    pub knowledge: i32,
    pub sociality: i32,
    /// Age in seconds.
    pub age: u64,
    /// The hour at which hunger last cost health.
    pub last_hunger_hour: u8,
    pub is_sleeping: bool,
    pub last_mp_restore_minute: u8,
    /// Whether the person is busy with someone (trading, talking).
    pub is_interacting: bool,
    /// The lines of dialogue by topic.
    pub dialogues: Vec<(String, Vec<DialogueOption>)>,
    /// How readily the person talks, 0 to 100.
    pub talk_eagerness: u8,
    /// The liking for the player, -100 to 100.
    pub relationship: i32,
    pub dialogue_state: String,
    pub met_player: bool,
    pub interaction_count: u32,
    pub gender: String,
    /// Looks, 0 to 100.
    pub appearance: i32,
    /// Build, 0 to 100.
    pub build: i32,
    /// The leader of the person's party ("me" for the player's), if any.
    pub party_leader: Option<String>,
    /// The fighting moves by name.
    pub combat_skills: Vec<(String, CombatSkill)>,
    /// What the person shouts with each move, by the move's name.
    pub skill_dialogues: Vec<(String, String)>,
    pub combat_exp: i32,
}

/// The description of `p` built from `descs`: looks, build (when the
/// gender is known), strength, the word for the gender and health.
pub open spec fn person_words(descs: PersonDescriptions, p: Person) -> Seq<char> {
    let a = descs.appearance_words(p.appearance);
    let st = descs.strength_words(p.strength);
    let h = descs.health_words(p.hp, p.max_hp);
    if p.gender@.len() == 0 {
        "一位"@ + a + "，"@ + st + "人，看起來"@ + h + "。"@
    } else {
        "一位"@ + a + "，"@ + descs.build_words(p.build) + "體格，"@ + st + gender_text(p.gender@)
            + "，看起來"@ + h + "。"@
    }
}

/// `e` is the move `name` unlearned, of `damage` and `cooldown`, ready.
pub open spec fn fresh_skill(e: (String, CombatSkill), name: Seq<char>, damage: i32, cooldown: i32) -> bool {
    &&& e.0@ == name
    &&& e.1.name@ == name
    &&& e.1.proficiency == 0
    &&& e.1.damage == damage
    &&& e.1.cooldown == cooldown
    &&& e.1.current_cooldown == 0
}

/// The lines of `d` on `topic`, none when the topic has none.
pub open spec fn options_of(d: Seq<(String, Vec<DialogueOption>)>, topic: Seq<char>) -> Seq<DialogueOption> {
    match value_at_key(d, topic) {
        Some(v) => v@,
        None => Seq::empty(),
    }
}

/// The topics of `d`, in order.
pub open spec fn topics_of(d: Seq<(String, Vec<DialogueOption>)>) -> Seq<Seq<char>> {
    d.map_values(|e: (String, Vec<DialogueOption>)| e.0@)
}

/// `d2` is `d` with `o` added to the lines on `topic`, the topic listed
/// last when it was not listed.
pub open spec fn option_added(
    d: Seq<(String, Vec<DialogueOption>)>,
    d2: Seq<(String, Vec<DialogueOption>)>,
    topic: Seq<char>,
    o: DialogueOption,
) -> bool {
    &&& topics_of(d2) == (if key_position(d, topic) is Some {
        topics_of(d)
    } else {
        topics_of(d).push(topic)
    })
    &&& forall|t: Seq<char>| #[trigger] options_of(d2, t) == (if t == topic {
        options_of(d, t).push(o)
    } else {
        options_of(d, t)
    })
}

pub proof fn lemma_same_keys_pub<V>(s: Seq<(String, V)>, t: Seq<(String, V)>, k: Seq<char>)
    requires
        s.len() == t.len(),
        forall|j: int| 0 <= j < s.len() ==> s[j].0@ == t[j].0@,
    ensures
        key_position(s, k) == key_position(t, k),
{
    lemma_same_keys(s, t, k);
}

proof fn lemma_same_keys<V>(s: Seq<(String, V)>, t: Seq<(String, V)>, k: Seq<char>)
    requires
        s.len() == t.len(),
        forall|j: int| 0 <= j < s.len() ==> s[j].0@ == t[j].0@,
    ensures
        key_position(s, k) == key_position(t, k),
{
    if exists|i: int| is_first_key(s, k, i) {
        let i = choose|i: int| is_first_key(s, k, i);
        lemma_first_key(s, k, i);
        assert(is_first_key(t, k, i));
        lemma_first_key(t, k, i);
    } else {
        assert(!exists|i: int| is_first_key(t, k, i)) by {
            if exists|i: int| is_first_key(t, k, i) {
                let i = choose|i: int| is_first_key(t, k, i);
                assert(is_first_key(s, k, i));
            }
        }
    }
}

/// Adds `o` to the lines of `d` on `topic`.
fn add_option(d: &mut Vec<(String, Vec<DialogueOption>)>, topic: String, o: DialogueOption)
    ensures
        option_added(old(d)@, final(d)@, topic@, o),
{
    let ghost s = d@;
    match find_key(d, topic.as_str()) {
        Some(i) => {
            let mut entry = d.remove(i);
            let ghost before = entry.1@;
            entry.1.push(o);
            d.insert(i, entry);
            proof {
                let t = d@;
                assert(t =~= s.update(i as int, t[i as int]));
                assert forall|j: int| 0 <= j < s.len() implies s[j].0@ == t[j].0@ by {}
                assert(topics_of(t) =~= topics_of(s));
                assert forall|k: Seq<char>| #[trigger] options_of(t, k) == (if k == topic@ {
                    options_of(s, k).push(o)
                } else {
                    options_of(s, k)
                }) by {
                    lemma_same_keys(s, t, k);
                    if k == topic@ {
                        assert(t[i as int].1@ =~= before.push(o));
                    } else if let Some(j) = key_position(s, k) {
                        assert(j != i);
                    }
                }
            }
        },
        None => {
            let ghost tv = topic@;
            let mut opts: Vec<DialogueOption> = Vec::new();
            opts.push(o);
            d.push((topic, opts));
            proof {
                let t = d@;
                assert(topics_of(t) =~= topics_of(s).push(tv));
                assert forall|k: Seq<char>| #[trigger] options_of(t, k) == (if k == tv {
                    options_of(s, k).push(o)
                } else {
                    options_of(s, k)
                }) by {
                    if k == tv {
                        assert(t[s.len() as int].0@ == tv);
                        assert(is_first_key(t, k, s.len() as int));
                        lemma_first_key(t, k, s.len() as int);
                        assert(t[s.len() as int].1@ =~= seq![o]);
                        assert(options_of(s, k) =~= Seq::<DialogueOption>::empty());
                    } else {
                        if let Some(j) = key_position(s, k) {
                            assert(is_first_key(t, k, j));
                            lemma_first_key(t, k, j);
                        } else {
                            assert forall|j: int| 0 <= j < t.len() implies t[j].0@ != k by {
                                if j < s.len() && s[j].0@ == k {
                                    lemma_key_found(s, k, j);
                                }
                            }
                        }
                    }
                }
            }
        },
    }
}

/// `p` is a person just made (see [`Person::new`]) called `name`,
/// described from `descs`.
pub open spec fn newborn(p: Person, name: Seq<char>, descs: PersonDescriptions) -> bool {
    &&& p.wf()
    &&& p.name@ == name
    &&& p.description@ == person_words(descs, p)
    &&& p.abilities@.len() == 0
    &&& forall|k: Seq<char>| #[trigger] p.items.amount(k) is None
    &&& p.status@ == "正常"@
    &&& p.x == 50 && p.y == 50
    &&& p.map@ == "beginMap"@
    &&& p.hp == 100000 && p.mp == 100000 && p.max_hp == 100000 && p.max_mp == 100000
    &&& p.strength == 100 && p.knowledge == 100 && p.sociality == 100
    &&& p.age == 0 && p.last_hunger_hour == 0 && p.last_mp_restore_minute == 0
    &&& !p.is_sleeping && !p.is_interacting
    &&& topics_of(p.dialogues@) == seq!["被叫住"@]
    &&& options_of(p.dialogues@, "被叫住"@).len() == 1
    &&& options_of(p.dialogues@, "被叫住"@)[0].text@ == name + " 有什麼事嗎？"@
    &&& options_of(p.dialogues@, "被叫住"@)[0].conditions@.len() == 0
    &&& options_of(p.dialogues@, "被叫住"@)[0].weight == 1000
    &&& p.talk_eagerness == 100
    &&& p.relationship == 0
    &&& p.dialogue_state@ == "初見"@
    &&& !p.met_player && p.interaction_count == 0
    &&& p.gender@.len() == 0
    &&& p.appearance == 50 && p.build == 50
    &&& p.party_leader is None
    &&& p.combat_skills@.len() == 2
    &&& fresh_skill(p.combat_skills@[0], "punch"@, 2, 2)
    &&& fresh_skill(p.combat_skills@[1], "kick"@, 3, 3)
    &&& p.skill_dialogues@.len() == 2
    &&& p.skill_dialogues@[0].0@ == "punch"@
    &&& p.skill_dialogues@[1].0@ == "kick"@
    &&& p.skill_dialogues@[0].1@ == (if name == "me"@ {
        "吃我一拳"@
    } else {
        "你搞什麼"@
    })
    &&& p.skill_dialogues@[1].1@ == (if name == "me"@ {
        "看我的飛踢"@
    } else {
        "別惹我"@
    })
    &&& p.combat_exp == 0
}

impl Person {
    /// The person's belongings are well kept.
    pub open spec fn wf(&self) -> bool {
        self.items.wf()
    }

    /// A new person called `name`, described from `descs`: full health and
    /// will power (100000), strength, knowledge and sociality 100, at
    /// (50, 50) of beginMap, knowing how to punch and kick, with one line
    /// for being called ("被叫住").
    pub fn new(name: String, description: String, descs: &PersonDescriptions) -> (r: Self)
        ensures
            newborn(r, name@, *descs),
    {
        let mut skills: Vec<(String, CombatSkill)> = Vec::new();
        skills.push(
            (
                String::from_str("punch"),
                CombatSkill {
                    name: String::from_str("punch"),
                    proficiency: 0,
                    damage: 2,
                    cooldown: 2,
                    current_cooldown: 0,
                },
            ),
        );
        skills.push(
            (
                String::from_str("kick"),
                CombatSkill {
                    name: String::from_str("kick"),
                    proficiency: 0,
                    damage: 3,
                    cooldown: 3,
                    current_cooldown: 0,
                },
            ),
        );
        let is_me = str_eq(name.as_str(), "me");
        let mut lines: Vec<(String, String)> = Vec::new();
        if is_me {
            lines.push((String::from_str("punch"), String::from_str("吃我一拳")));
            lines.push((String::from_str("kick"), String::from_str("看我的飛踢")));
        } else {
            lines.push((String::from_str("punch"), String::from_str("你搞什麼")));
            lines.push((String::from_str("kick"), String::from_str("別惹我")));
        }
        let mut called = name.clone();
        called.append(" 有什麼事嗎？");
        let ghost cv = called@;
        let mut dialogues: Vec<(String, Vec<DialogueOption>)> = Vec::new();
        let ghost empty = dialogues@;
        let o = DialogueOption::new(called);
        add_option(&mut dialogues, String::from_str("被叫住"), o);
        proof {
            reveal_strlit("被叫住");
            assert(key_position(empty, "被叫住"@) is None);
            assert(topics_of(empty) =~= Seq::<Seq<char>>::empty());
            assert(options_of(empty, "被叫住"@) =~= Seq::<DialogueOption>::empty());
        }
        let mut p = Person {
            name,
            description: String::new(),
            abilities: Vec::new(),
            items: Inventory::new(),
            status: String::from_str("正常"),
            x: 50,
            y: 50,
            map: String::from_str("beginMap"),
            hp: 100000,
            mp: 100000,
            max_hp: 100000,
            max_mp: 100000,
            strength: 100,
            knowledge: 100,
            sociality: 100,
            age: 0,
            last_hunger_hour: 0,
            is_sleeping: false,
            last_mp_restore_minute: 0,
            is_interacting: false,
            dialogues,
            talk_eagerness: 100,
            relationship: 0,
            dialogue_state: String::from_str("初見"),
            met_player: false,
            interaction_count: 0,
            gender: String::new(),
            appearance: 50,
            build: 50,
            party_leader: None,
            combat_skills: skills,
            skill_dialogues: lines,
            combat_exp: 0,
        };
        p.update_description(descs);
        p
    }

    /// Rewrites the description from `descs` (see [`person_words`]).
    pub fn update_description(&mut self, descs: &PersonDescriptions)
        ensures
            *final(self) == (Person { description: final(self).description, ..*old(self) }),
            final(self).description@ == person_words(*descs, *old(self)),
    {
        let a = descs.get_appearance_description(self.appearance);
        let st = descs.get_strength_description(self.strength);
        let h = descs.get_health_status_description(self.hp, self.max_hp);
        let mut d = String::from_str("一位");
        d.append(a.as_str());
        d.append("，");
        if self.gender.as_str().unicode_len() == 0 {
            d.append(st.as_str());
            d.append("人，看起來");
        } else {
            let b = descs.get_build_description(self.build);
            d.append(b.as_str());
            d.append("體格，");
            d.append(st.as_str());
            d.append(gender_word(self.gender.as_str()));
            d.append("，看起來");
        }
        d.append(h.as_str());
        d.append("。");
        proof {
            reveal_strlit("一位");
            reveal_strlit("，");
            reveal_strlit("人，看起來");
            reveal_strlit("體格，");
            reveal_strlit("，看起來");
            reveal_strlit("。");
        }
        self.description = d;
    }
}


impl Person {
    /// Sets the looks, kept within 0..=100, and rewrites the description.
    pub fn set_appearance(&mut self, appearance: i32, descs: &PersonDescriptions)
        ensures
            *final(self) == (Person {
                appearance: clamp_int(appearance as int, 0, 100) as i32,
                description: final(self).description,
                ..*old(self)
            }),
            final(self).description@ == person_words(
                *descs,
                Person { appearance: clamp_int(appearance as int, 0, 100) as i32, ..*old(self) },
            ),
    {
        self.appearance = if appearance < 0 {
            0
        } else if appearance > 100 {
            100
        } else {
            appearance
        };
        self.update_description(descs);
    }

    /// Sets the build, kept within 0..=100, and rewrites the description.
    pub fn set_build(&mut self, build: i32, descs: &PersonDescriptions)
        ensures
            *final(self) == (Person {
                build: clamp_int(build as int, 0, 100) as i32,
                description: final(self).description,
                ..*old(self)
            }),
            final(self).description@ == person_words(
                *descs,
                Person { build: clamp_int(build as int, 0, 100) as i32, ..*old(self) },
            ),
    {
        self.build = if build < 0 {
            0
        } else if build > 100 {
            100
        } else {
            build
        };
        self.update_description(descs);
    }

    /// Sets the gender and rewrites the description.
    pub fn set_gender(&mut self, gender: String, descs: &PersonDescriptions)
        ensures
            *final(self) == (Person { gender, description: final(self).description, ..*old(self) }),
            final(self).description@ == person_words(*descs, Person { gender, ..*old(self) }),
    {
        self.gender = gender;
        self.update_description(descs);
    }

    /// Sets the strength and rewrites the description.
    pub fn set_strength(&mut self, strength: i32, descs: &PersonDescriptions)
        ensures
            *final(self) == (Person { strength, description: final(self).description, ..*old(self) }),
            final(self).description@ == person_words(*descs, Person { strength, ..*old(self) }),
    {
        self.strength = strength;
        self.update_description(descs);
    }

    /// Sets the health and rewrites the description.
    pub fn set_hp(&mut self, hp: i32, descs: &PersonDescriptions)
        ensures
            *final(self) == (Person { hp, description: final(self).description, ..*old(self) }),
            final(self).description@ == person_words(*descs, Person { hp, ..*old(self) }),
    {
        self.hp = hp;
        self.update_description(descs);
    }

    /// Sets how readily the person talks, at most 100, and rewrites the
    /// description.
    pub fn set_talk_eagerness(&mut self, eagerness: u8, descs: &PersonDescriptions)
        ensures
            *final(self) == (Person {
                talk_eagerness: if eagerness > 100 {
                    100u8
                } else {
                    eagerness
                },
                description: final(self).description,
                ..*old(self)
            }),
            final(self).description@ == person_words(*descs, *old(self)),
    {
        self.talk_eagerness = if eagerness > 100 {
            100
        } else {
            eagerness
        };
        self.update_description(descs);
    }

    /// Adds `option` to the lines on `topic`.
    pub fn add_dialogue_option(&mut self, topic: String, option: DialogueOption)
        ensures
            *final(self) == (Person { dialogues: final(self).dialogues, ..*old(self) }),
            option_added(old(self).dialogues@, final(self).dialogues@, topic@, option),
    {
        add_option(&mut self.dialogues, topic, option);
    }

    /// Adds the line `text`, with no conditions and a weight of 1, to the
    /// lines on `topic`.
    pub fn set_dialogue(&mut self, topic: String, text: String)
        ensures
            *final(self) == (Person { dialogues: final(self).dialogues, ..*old(self) }),
            exists|o: DialogueOption|
                #[trigger] option_added(old(self).dialogues@, final(self).dialogues@, topic@, o) && o.text == text
                    && o.conditions@.len() == 0 && o.weight == 1000,
    {
        let o = DialogueOption::new(text);
        add_option(&mut self.dialogues, topic, o);
    }

    /// Changes the liking by `delta`, kept within -100..=100, and the stage
    /// of acquaintance with it.
    pub fn change_relationship(&mut self, delta: i32)
        requires
            i32::MIN <= old(self).relationship + delta <= i32::MAX,
        ensures
            final(self).relationship == clamp_int(old(self).relationship + delta, -100, 100),
            final(self).dialogue_state@ == dialogue_state_text(final(self).relationship),
            *final(self) == (Person {
                relationship: final(self).relationship,
                dialogue_state: final(self).dialogue_state,
                ..*old(self)
            }),
    {
        self.relationship = relationship_after(self.relationship, delta);
        self.dialogue_state = String::from_str(dialogue_state_for(self.relationship));
    }

    /// Marks that the person has met the player; the first meeting raises
    /// the liking by 5.
    pub fn mark_met_player(&mut self)
        requires
            old(self).relationship + 5 <= i32::MAX,
        ensures
            old(self).met_player ==> *final(self) == *old(self),
            !old(self).met_player ==> {
                &&& final(self).met_player
                &&& final(self).relationship == clamp_int(old(self).relationship + 5, -100, 100)
                &&& final(self).dialogue_state@ == dialogue_state_text(final(self).relationship)
                &&& *final(self) == (Person {
                    met_player: true,
                    relationship: final(self).relationship,
                    dialogue_state: final(self).dialogue_state,
                    ..*old(self)
                })
            },
    {
        if !self.met_player {
            self.met_player = true;
            self.change_relationship(5);
        }
    }

    /// The stage of acquaintance with the liking in brackets.
    pub fn get_relationship_description(&self) -> (r: String)
        ensures
            r@ == dialogue_state_text(self.relationship) + " ("@ + signed_decimal(self.relationship as int)
                + ")"@,
    {
        relationship_description(self.relationship)
    }

    /// Changes the health by `amount` (see [`hp_check`]), sets the status
    /// words and rewrites the description.
    pub fn check_hp(&mut self, amount: i32, descs: &PersonDescriptions)
        requires
            i32::MIN <= old(self).hp + amount <= i32::MAX,
        ensures
            final(self).hp == hp_check(old(self).hp, old(self).max_hp, amount).0,
            final(self).status@ == hp_check(old(self).hp, old(self).max_hp, amount).1,
            *final(self) == (Person {
                hp: final(self).hp,
                status: final(self).status,
                description: final(self).description,
                ..*old(self)
            }),
            final(self).description@ == person_words(*descs, Person { hp: final(self).hp, ..*old(self) }),
    {
        let (v, status) = check_hp(self.hp, self.max_hp, amount);
        self.hp = v;
        self.status = String::from_str(status);
        self.update_description(descs);
    }

    /// Changes the will power by `amount`, kept at 0 or more; at 50 or less
    /// the person falls asleep.
    pub fn check_mp(&mut self, amount: i32)
        requires
            i32::MIN <= old(self).mp + amount <= i32::MAX,
        ensures
            final(self).mp == (if old(self).mp + amount < 0 {
                0
            } else {
                old(self).mp + amount
            }),
            final(self).is_sleeping == (old(self).is_sleeping || final(self).mp <= 50),
            *final(self) == (Person {
                mp: final(self).mp,
                is_sleeping: final(self).is_sleeping,
                ..*old(self)
            }),
    {
        let (v, asleep) = check_mp(self.mp, amount);
        self.mp = v;
        if asleep {
            self.is_sleeping = true;
        }
    }

    /// Adds an ability.
    pub fn add_ability(&mut self, ability: String)
        ensures
            final(self).abilities@ == old(self).abilities@.push(ability),
            *final(self) == (Person { abilities: final(self).abilities, ..*old(self) }),
    {
        self.abilities.push(ability);
    }

    /// Adds one `item`.
    pub fn add_item(&mut self, item: String)
        requires
            old(self).wf(),
            old(self).items.count_of(item@) + 1 <= u32::MAX,
        ensures
            final(self).wf(),
            final(self).items.amount(item@) == Some((old(self).items.count_of(item@) + 1) as u32),
            forall|k: Seq<char>| k != item@ ==> #[trigger] final(self).items.amount(k) == old(self).items.amount(k),
            *final(self) == (Person { items: final(self).items, ..*old(self) }),
    {
        self.items.add_items(item.as_str(), 1);
    }

    /// Adds `quantity` of `item`.
    pub fn add_items(&mut self, item: String, quantity: u32)
        requires
            old(self).wf(),
            old(self).items.count_of(item@) + quantity <= u32::MAX,
        ensures
            final(self).wf(),
            final(self).items.amount(item@) == Some((old(self).items.count_of(item@) + quantity) as u32),
            forall|k: Seq<char>| k != item@ ==> #[trigger] final(self).items.amount(k) == old(self).items.amount(k),
            *final(self) == (Person { items: final(self).items, ..*old(self) }),
    {
        self.items.add_items(item.as_str(), quantity);
    }

    /// Puts down `quantity` of `item_name` when that many are carried (see
    /// [`Inventory::drop_items`]).
    pub fn drop_items(&mut self, item_name: &str, quantity: u32) -> (r: Option<String>)
        requires
            old(self).wf(),
        ensures
            final(self).wf(),
            *final(self) == (Person { items: final(self).items, ..*old(self) }),
            match old(self).items.amount(item_name@) {
                Some(c) => if c >= quantity {
                    &&& r matches Some(n) && n@ == item_name@
                    &&& final(self).items.amount(item_name@) == taken(Some(c), quantity)
                    &&& forall|k: Seq<char>| k != item_name@ ==> #[trigger] final(self).items.amount(k) == old(self).items.amount(k)
                } else {
                    r is None && forall|k: Seq<char>| #[trigger] final(self).items.amount(k) == old(self).items.amount(k)
                },
                None => r is None && forall|k: Seq<char>| #[trigger] final(self).items.amount(k) == old(self).items.amount(k),
            },
    {
        self.items.drop_items(item_name, quantity)
    }

    /// How many of `item_name` are carried.
    pub fn get_item_count(&self, item_name: &str) -> (r: u32)
        requires
            self.wf(),
        ensures
            r == self.items.count_of(item_name@),
    {
        self.items.get_item_count(item_name)
    }

    /// Sets the status words.
    pub fn set_status(&mut self, status: String)
        ensures
            *final(self) == (Person { status, ..*old(self) }),
    {
        self.status = status;
    }

    /// Moves to (x, y); walking costs one point of health (see
    /// [`Self::check_hp`]).
    pub fn move_to(&mut self, x: usize, y: usize, descs: &PersonDescriptions)
        requires
            old(self).hp - 1 >= i32::MIN,
        ensures
            final(self).x == x && final(self).y == y,
            final(self).hp == hp_check(old(self).hp, old(self).max_hp, -1i32).0,
            final(self).status@ == hp_check(old(self).hp, old(self).max_hp, -1i32).1,
            final(self).description@ == person_words(*descs, Person { hp: final(self).hp, ..*old(self) }),
            *final(self) == (Person {
                x,
                y,
                hp: final(self).hp,
                status: final(self).status,
                description: final(self).description,
                ..*old(self)
            }),
    {
        self.check_hp(-1, descs);
        self.x = x;
        self.y = y;
    }

    /// Takes away `quantity` of `item_name` when that many are carried;
    /// the answer says whether it happened.
    pub fn remove_item(&mut self, item_name: &str, quantity: u32) -> (r: bool)
        requires
            old(self).wf(),
        ensures
            final(self).wf(),
            *final(self) == (Person { items: final(self).items, ..*old(self) }),
            r == (old(self).items.count_of(item_name@) >= quantity),
            r ==> final(self).items.amount(item_name@) == (if old(self).items.count_of(item_name@) == quantity {
                None
            } else {
                Some((old(self).items.count_of(item_name@) - quantity) as u32)
            }),
            !r ==> final(self).items.amount(item_name@) == old(self).items.amount(item_name@),
            forall|k: Seq<char>| k != item_name@ ==> #[trigger] final(self).items.amount(k) == old(self).items.amount(k),
    {
        self.items.remove_items(item_name, quantity)
    }

    /// A person may start a fight with at least half of their most health.
    pub fn can_start_combat(&self) -> (r: bool)
        ensures
            r == (self.hp >= div_toward_zero(self.max_hp as int, 2)),
    {
        can_start_combat(self.hp, self.max_hp)
    }

    /// The rounds still to wait before the move `skill_name` is ready; 0
    /// for a move the person does not know.
    pub fn get_skill_cooldown(&self, skill_name: &str) -> (r: i32)
        ensures
            r == match value_at_key(self.combat_skills@, skill_name@) {
                Some(sk) => sk.current_cooldown,
                None => 0,
            },
    {
        match find_key(&self.combat_skills, skill_name) {
            Some(i) => self.combat_skills[i].1.current_cooldown,
            None => 0,
        }
    }
}


/// The value of the attribute `attr` of `p` as text, for a condition of
/// dialogue: numbers in decimal, the gender as it is, `items_count` the
/// number of items carried, `item:<name>` the number carried of `name`;
/// nothing for any other attribute.
pub open spec fn attribute_value(p: Person, attr: Seq<char>) -> Option<Seq<char>> {
    if attr == "hp"@ {
        Some(signed_decimal(p.hp as int))
    } else if attr == "mp"@ {
        Some(signed_decimal(p.mp as int))
    } else if attr == "max_hp"@ {
        Some(signed_decimal(p.max_hp as int))
    } else if attr == "max_mp"@ {
        Some(signed_decimal(p.max_mp as int))
    } else if attr == "strength"@ || attr == "力量"@ {
        Some(signed_decimal(p.strength as int))
    } else if attr == "knowledge"@ || attr == "知識"@ {
        Some(signed_decimal(p.knowledge as int))
    } else if attr == "sociality"@ || attr == "交誼"@ {
        Some(signed_decimal(p.sociality as int))
    } else if attr == "relationship"@ || attr == "好感度"@ {
        Some(signed_decimal(p.relationship as int))
    } else if attr == "talk_eagerness"@ || attr == "積極度"@ {
        Some(decimal(p.talk_eagerness as nat))
    } else if attr == "age"@ || attr == "年齡"@ {
        Some(decimal(p.age as nat))
    } else if attr == "gender"@ || attr == "性別"@ {
        Some(p.gender@)
    } else if attr == "appearance"@ || attr == "顏值"@ {
        Some(signed_decimal(p.appearance as int))
    } else if attr == "items_count"@ || attr == "物品數量"@ {
        Some(decimal(total_of(p.items.listing())))
    } else if attr.len() >= 5 && attr.take(5) == "item:"@ {
        Some(decimal(p.items.count_of(attr.skip(5))))
    } else {
        None
    }
}

/// The condition `c` holds of `p`.
pub open spec fn condition_met(c: DialogueCondition, p: Person) -> bool {
    match attribute_value(p, c.attribute@) {
        Some(v) => condition_holds(v, c.operator@, c.value@),
        None => false,
    }
}

/// The weight of the line `o` for `p`: its weight when all its conditions
/// hold of `p`, 0 otherwise.
pub open spec fn effective_weight(o: DialogueOption, p: Person) -> nat {
    if forall|i: int| 0 <= i < o.conditions@.len() ==> condition_met(#[trigger] o.conditions@[i], p) {
        o.weight as nat
    } else {
        0
    }
}

/// The sum of the weights for `p` of the first `n` lines of `opts`.
pub open spec fn weight_prefix(opts: Seq<DialogueOption>, p: Person, n: int) -> nat
    decreases n,
{
    if n <= 0 {
        0
    } else {
        weight_prefix(opts, p, n - 1) + effective_weight(opts[n - 1], p)
    }
}

/// The sum of the weights for `p` of the lines `opts`.
pub open spec fn weight_total(opts: Seq<DialogueOption>, p: Person) -> nat {
    weight_prefix(opts, p, opts.len() as int)
}

/// The line that a draw `roll` below the total weight falls on: the first
/// whose running total of weights passes `roll`.
pub open spec fn line_for_roll(opts: Seq<DialogueOption>, p: Person, roll: nat, i: int) -> bool {
    &&& 0 <= i < opts.len()
    &&& weight_prefix(opts, p, i) <= roll < weight_prefix(opts, p, i + 1)
}

proof fn lemma_prefix_monotone(opts: Seq<DialogueOption>, p: Person, a: int, b: int)
    requires
        0 <= a <= b,
    ensures
        weight_prefix(opts, p, a) <= weight_prefix(opts, p, b),
    decreases b - a,
{
    if a < b {
        lemma_prefix_monotone(opts, p, a, b - 1);
    }
}

/// The line that `roll` falls on has a weight for `p` above 0.
pub proof fn lemma_rolled_line_has_weight(opts: Seq<DialogueOption>, p: Person, roll: nat, i: int)
    requires
        line_for_roll(opts, p, roll, i),
    ensures
        effective_weight(opts[i], p) > 0,
{
}

fn item_prefix(attr: &str) -> (r: Option<String>)
    ensures
        match r {
            Some(n) => attr@.len() >= 5 && attr@.take(5) == "item:"@ && n@ == attr@.skip(5),
            None => !(attr@.len() >= 5 && attr@.take(5) == "item:"@),
        },
{
    let c = chars_of(attr);
    proof {
        reveal_strlit("item:");
    }
    if c.len() >= 5 && c[0] == 'i' && c[1] == 't' && c[2] == 'e' && c[3] == 'm' && c[4] == ':' {
        let n = string_of(&c, 5, c.len());
        proof {
            assert(attr@.take(5) =~= "item:"@);
            assert(n@ =~= attr@.skip(5));
        }
        Some(n)
    } else {
        proof {
            if attr@.len() >= 5 && attr@.take(5) == "item:"@ {
                assert(attr@.take(5)[0] == 'i' && attr@.take(5)[1] == 't' && attr@.take(5)[2] == 'e');
                assert(attr@.take(5)[3] == 'm' && attr@.take(5)[4] == ':');
            }
        }
        None
    }
}

impl DialogueCondition {
    /// Whether the condition holds of `person` (see [`condition_met`]).
    pub fn evaluate(&self, person: &Person) -> (r: bool)
        requires
            person.wf(),
            total_of(person.items.listing()) <= u32::MAX,
        ensures
            r == condition_met(*self, *person),
    {
        let a = self.attribute.as_str();
        proof {
            reveal_strlit("hp");
            reveal_strlit("mp");
            reveal_strlit("max_hp");
            reveal_strlit("max_mp");
            reveal_strlit("strength");
            reveal_strlit("力量");
            reveal_strlit("knowledge");
            reveal_strlit("知識");
            reveal_strlit("sociality");
            reveal_strlit("交誼");
            reveal_strlit("relationship");
            reveal_strlit("好感度");
            reveal_strlit("talk_eagerness");
            reveal_strlit("積極度");
            reveal_strlit("age");
            reveal_strlit("年齡");
            reveal_strlit("gender");
            reveal_strlit("性別");
            reveal_strlit("appearance");
            reveal_strlit("顏值");
            reveal_strlit("items_count");
            reveal_strlit("物品數量");
            reveal_strlit("item:");
        }
        let value: String = if str_eq(a, "hp") {
            signed_string(person.hp as i64)
        } else if str_eq(a, "mp") {
            signed_string(person.mp as i64)
        } else if str_eq(a, "max_hp") {
            signed_string(person.max_hp as i64)
        } else if str_eq(a, "max_mp") {
            signed_string(person.max_mp as i64)
        } else if str_eq(a, "strength") || str_eq(a, "力量") {
            signed_string(person.strength as i64)
        } else if str_eq(a, "knowledge") || str_eq(a, "知識") {
            signed_string(person.knowledge as i64)
        } else if str_eq(a, "sociality") || str_eq(a, "交誼") {
            signed_string(person.sociality as i64)
        } else if str_eq(a, "relationship") || str_eq(a, "好感度") {
            signed_string(person.relationship as i64)
        } else if str_eq(a, "talk_eagerness") || str_eq(a, "積極度") {
            decimal_string(person.talk_eagerness as u64)
        } else if str_eq(a, "age") || str_eq(a, "年齡") {
            decimal_string(person.age)
        } else if str_eq(a, "gender") || str_eq(a, "性別") {
            person.gender.clone()
        } else if str_eq(a, "appearance") || str_eq(a, "顏值") {
            signed_string(person.appearance as i64)
        } else if str_eq(a, "items_count") || str_eq(a, "物品數量") {
            decimal_string(person.items.total() as u64)
        } else {
            match item_prefix(a) {
                Some(n) => decimal_string(person.items.get_item_count(n.as_str()) as u64),
                None => {
                    return false;
                },
            }
        };
        self.holds_for(value.as_str())
    }
}

impl DialogueOption {
    /// Whether all the line's conditions hold of `person`.
    pub fn check_conditions(&self, person: &Person) -> (r: bool)
        requires
            person.wf(),
            total_of(person.items.listing()) <= u32::MAX,
        ensures
            r == forall|i: int| 0 <= i < self.conditions@.len() ==> condition_met(#[trigger] self.conditions@[i], *person),
    {
        let mut i: usize = 0;
        while i < self.conditions.len()
            invariant
                person.wf(),
                total_of(person.items.listing()) <= u32::MAX,
                i <= self.conditions@.len(),
                forall|j: int| 0 <= j < i ==> condition_met(#[trigger] self.conditions@[j], *person),
            decreases self.conditions@.len() - i,
        {
            if !self.conditions[i].evaluate(person) {
                return false;
            }
            i = i + 1;
        }
        true
    }

    /// The line's weight for `person` (see [`effective_weight`]).
    pub fn get_effective_weight(&self, person: &Person) -> (r: u32)
        requires
            person.wf(),
            total_of(person.items.listing()) <= u32::MAX,
        ensures
            r == effective_weight(*self, *person),
    {
        if self.check_conditions(person) {
            self.weight
        } else {
            0
        }
    }
}

/// The line of `opts` that the draw `roll` falls on (see
/// [`line_for_roll`]); nothing when `roll` is not below the total weight.
pub fn line_at_roll(opts: &Vec<DialogueOption>, target: &Person, roll: u64) -> (r: Option<String>)
    requires
        target.wf(),
        total_of(target.items.listing()) <= u32::MAX,
    ensures
        match r {
            Some(t) => exists|i: int| #[trigger] line_for_roll(opts@, *target, roll as nat, i) && t@ == opts@[i].text@,
            None => weight_total(opts@, *target) <= roll,
        },
{
    let mut i: usize = 0;
    let mut run: u128 = 0;
    while i < opts.len()
        invariant
            target.wf(),
            total_of(target.items.listing()) <= u32::MAX,
            i <= opts@.len(),
            run == weight_prefix(opts@, *target, i as int),
            run <= roll,
            run <= i * 0xffff_ffffu128,
        decreases opts@.len() - i,
    {
        let w = opts[i].get_effective_weight(target);
        proof {
            assert(i * 0xffff_ffffu128 + 0xffff_ffff == (i + 1) * 0xffff_ffffu128) by (nonlinear_arith);
            assert((i + 1) * 0xffff_ffffu128 <= 0x1_0000_0000_0000_0000 * 0x1_0000_0000) by (nonlinear_arith)
                requires
                    i < 0x1_0000_0000_0000_0000,
            ;
        }
        let next = run + w as u128;
        if next > roll as u128 {
            proof {
                assert(line_for_roll(opts@, *target, roll as nat, i as int));
            }
            return Some(opts[i].text.clone());
        }
        run = next;
        i = i + 1;
    }
    None
}

impl Person {
    /// Practises the move `skill_name`: when it is ready, its proficiency
    /// grows by 2 in a fight and by 1 otherwise and it cools down; when it
    /// is not ready nothing changes. The answer says which; nothing for a
    /// move the person does not know.
    pub fn practice_skill(&mut self, skill_name: &str, in_combat: bool) -> (r: Option<String>)
        requires
            value_at_key(old(self).combat_skills@, skill_name@) matches Some(sk) ==> (sk.current_cooldown <= 0
                ==> sk.proficiency + 2 <= i32::MAX),
        ensures
            match key_position(old(self).combat_skills@, skill_name@) {
                None => r is None && *final(self) == *old(self),
                Some(i) => {
                    let sk = old(self).combat_skills@[i].1;
                    let gain: int = if in_combat {
                        2
                    } else {
                        1
                    };
                    if sk.current_cooldown > 0 {
                        &&& r matches Some(m) && m@ == "你還沒準備好"@ + skill_name@
                        &&& *final(self) == *old(self)
                    } else {
                        &&& r matches Some(m) && m@ == "你練習了 "@ + skill_name@ + " (熟練度 +"@ + signed_decimal(
                            gain,
                        ) + ")"@
                        &&& final(self).combat_skills@ == old(self).combat_skills@.update(
                            i,
                            (
                                old(self).combat_skills@[i].0,
                                CombatSkill {
                                    proficiency: (sk.proficiency + gain) as i32,
                                    current_cooldown: sk.cooldown,
                                    ..sk
                                },
                            ),
                        )
                        &&& *final(self) == (Person { combat_skills: final(self).combat_skills, ..*old(self) })
                    }
                },
            },
    {
        match find_key(&self.combat_skills, skill_name) {
            None => None,
            Some(i) => {
                if self.combat_skills[i].1.current_cooldown > 0 {
                    let mut m = String::from_str("你還沒準備好");
                    m.append(skill_name);
                    return Some(m);
                }
                let gain: i32 = if in_combat {
                    2
                } else {
                    1
                };
                let ghost before = self.combat_skills@;
                let (k, mut sk) = self.combat_skills.remove(i);
                sk.proficiency = sk.proficiency + gain;
                sk.current_cooldown = sk.cooldown;
                self.combat_skills.insert(i, (k, sk));
                proof {
                    assert(self.combat_skills@ =~= before.update(i as int, self.combat_skills@[i as int]));
                }
                let mut m = String::from_str("你練習了 ");
                m.append(skill_name);
                m.append(" (熟練度 +");
                push_signed(&mut m, gain as i64);
                m.append(")");
                Some(m)
            },
        }
    }

    /// One round passes: each cooling move has one round less to wait.
    pub fn reduce_skill_cooldowns(&mut self)
        ensures
            final(self).combat_skills@.len() == old(self).combat_skills@.len(),
            forall|i: int|
                0 <= i < old(self).combat_skills@.len() ==> (#[trigger] final(self).combat_skills@[i]).0
                    == old(self).combat_skills@[i].0 && final(self).combat_skills@[i].1 == (CombatSkill {
                    current_cooldown: if old(self).combat_skills@[i].1.current_cooldown > 0 {
                        (old(self).combat_skills@[i].1.current_cooldown - 1) as i32
                    } else {
                        old(self).combat_skills@[i].1.current_cooldown
                    },
                    ..old(self).combat_skills@[i].1
                }),
            *final(self) == (Person { combat_skills: final(self).combat_skills, ..*old(self) }),
    {
        let ghost before = self.combat_skills@;
        let mut i: usize = 0;
        while i < self.combat_skills.len()
            invariant
                self.combat_skills@.len() == before.len(),
                i <= before.len(),
                *self == (Person { combat_skills: self.combat_skills, ..*old(self) }),
                before == old(self).combat_skills@,
                forall|j: int|
                    0 <= j < before.len() ==> (#[trigger] self.combat_skills@[j]).0 == before[j].0
                        && self.combat_skills@[j].1 == (if j < i {
                        CombatSkill {
                            current_cooldown: if before[j].1.current_cooldown > 0 {
                                (before[j].1.current_cooldown - 1) as i32
                            } else {
                                before[j].1.current_cooldown
                            },
                            ..before[j].1
                        }
                    } else {
                        before[j].1
                    }),
            decreases before.len() - i,
        {
            let ghost cur = self.combat_skills@;
            let (k, mut sk) = self.combat_skills.remove(i);
            sk.reduce_cooldown();
            self.combat_skills.insert(i, (k, sk));
            proof {
                assert(self.combat_skills@ =~= cur.update(i as int, self.combat_skills@[i as int]));
            }
            i = i + 1;
        }
    }

    /// The lines of `topic` that `target` meets the conditions of, one of
    /// them drawn at random by weight; nothing when there are none.
    pub fn get_weighted_dialogue(&self, topic: &str, target: &Person) -> (r: Option<String>)
        requires
            target.wf(),
            total_of(target.items.listing()) <= u32::MAX,
            weight_total(options_of(self.dialogues@, topic@), *target) <= usize::MAX,
        ensures
            r is Some <==> weight_total(options_of(self.dialogues@, topic@), *target) > 0,
            r matches Some(t) ==> exists|i: int|
                0 <= i < options_of(self.dialogues@, topic@).len()
                    && effective_weight(options_of(self.dialogues@, topic@)[i], *target) > 0
                    && t@ == #[trigger] options_of(self.dialogues@, topic@)[i].text@,
    {
        let i = match find_key(&self.dialogues, topic) {
            Some(i) => i,
            None => {
                return None;
            },
        };
        let opts = &self.dialogues[i].1;
        let mut total: u64 = 0;
        let mut j: usize = 0;
        while j < opts.len()
            invariant
                target.wf(),
                total_of(target.items.listing()) <= u32::MAX,
                j <= opts@.len(),
                total == weight_prefix(opts@, *target, j as int),
                weight_prefix(opts@, *target, opts@.len() as int) <= usize::MAX,
            decreases opts@.len() - j,
        {
            proof {
                lemma_prefix_monotone(opts@, *target, j + 1, opts@.len() as int);
            }
            total = total + opts[j].get_effective_weight(target) as u64;
            j = j + 1;
        }
        if total == 0 {
            return None;
        }
        let roll = random_below(total as usize) as u64;
        let r = line_at_roll(opts, target, roll);
        proof {
            if r is Some {
                let t = r->0;
                let k = choose|k: int| #[trigger] line_for_roll(opts@, *target, roll as nat, k) && t@ == opts@[k].text@;
                lemma_rolled_line_has_weight(opts@, *target, roll as nat, k);
            }
        }
        r
    }

    /// Talks on `topic` to `target` when a draw below 100 falls under the
    /// person's eagerness: a line as [`Self::get_weighted_dialogue`] gives.
    pub fn try_talk(&self, topic: &str, target: &Person) -> (r: Option<String>)
        requires
            target.wf(),
            total_of(target.items.listing()) <= u32::MAX,
            weight_total(options_of(self.dialogues@, topic@), *target) <= usize::MAX,
        ensures
            self.talk_eagerness == 0 ==> r is None,
            self.talk_eagerness >= 100 ==> (r is Some <==> weight_total(options_of(self.dialogues@, topic@), *target) > 0),
            r is Some ==> weight_total(options_of(self.dialogues@, topic@), *target) > 0,
            r matches Some(t) ==> exists|i: int|
                0 <= i < options_of(self.dialogues@, topic@).len()
                    && effective_weight(options_of(self.dialogues@, topic@)[i], *target) > 0
                    && t@ == #[trigger] options_of(self.dialogues@, topic@)[i].text@,
    {
        let roll = random_below(100);
        if (roll as u8) < self.talk_eagerness {
            self.get_weighted_dialogue(topic, target)
        } else {
            None
        }
    }

    /// A line for `scene` suited to the stage of acquaintance: one of the
    /// lines on `scene:stage` when there is one, else one of those on
    /// `scene`, with the person's own attributes for the conditions.
    pub fn get_context_dialogue(&self, scene: &str) -> (r: Option<String>)
        requires
            self.wf(),
            total_of(self.items.listing()) <= u32::MAX,
            weight_total(options_of(self.dialogues@, scene@ + ":"@ + self.dialogue_state@), *self) <= usize::MAX,
            weight_total(options_of(self.dialogues@, scene@), *self) <= usize::MAX,
        ensures
            weight_total(options_of(self.dialogues@, scene@ + ":"@ + self.dialogue_state@), *self) > 0 ==> (r matches Some(t)
                && exists|i: int|
                0 <= i < options_of(self.dialogues@, scene@ + ":"@ + self.dialogue_state@).len()
                    && t@ == #[trigger] options_of(self.dialogues@, scene@ + ":"@ + self.dialogue_state@)[i].text@),
            weight_total(options_of(self.dialogues@, scene@ + ":"@ + self.dialogue_state@), *self) == 0 ==> (r is Some
                <==> weight_total(options_of(self.dialogues@, scene@), *self) > 0) && (r matches Some(t) ==> exists|i: int|
                0 <= i < options_of(self.dialogues@, scene@).len() && t@ == #[trigger] options_of(self.dialogues@, scene@)[i].text@),
    {
        let mut keyed = String::from_str(scene);
        keyed.append(":");
        keyed.append(self.dialogue_state.as_str());
        proof {
            reveal_strlit(":");
        }
        match self.get_weighted_dialogue(keyed.as_str(), self) {
            Some(t) => Some(t),
            None => self.get_weighted_dialogue(scene, self),
        }
    }
}


/// `after` is `before` one tick of the world clock later, the clock
/// reading `t` (see [`Person::on_time_update`]).
pub open spec fn ticked(before: Person, after: Person, t: TimeInfo, descs: PersonDescriptions) -> bool {
    let mp0: int = if before.mp < 0 {
        0
    } else {
        before.mp as int
    };
    let asleep = before.is_sleeping || mp0 <= 50;
    let hungry = !asleep && t.hour != before.last_hunger_hour;
    &&& after.age == before.age + 1
    &&& after.is_sleeping == asleep
    &&& after.mp == (if asleep {
        if mp0 + 1 > before.max_mp {
            before.max_mp as int
        } else {
            mp0 + 1
        }
    } else {
        mp0
    })
    &&& after.hp == (if hungry {
        hp_check(before.hp, before.max_hp, -100i32).0
    } else {
        before.hp as int
    })
    &&& after.last_hunger_hour == (if hungry {
        t.hour
    } else {
        before.last_hunger_hour
    })
    &&& after.status@ == (if asleep {
        before.status@
    } else {
        Seq::<char>::empty()
    })
    &&& after.description@ == (if asleep || hungry {
        person_words(descs, after)
    } else {
        before.description@
    })
    &&& after == (Person {
        age: after.age,
        is_sleeping: after.is_sleeping,
        mp: after.mp,
        hp: after.hp,
        last_hunger_hour: after.last_hunger_hour,
        status: after.status,
        description: after.description,
        ..before
    })
}

impl Person {
    /// One tick of the world clock, read `current_time`: the person is one
    /// second older; one who is awake goes hungry (100 health) once each
    /// new hour and has no status words; one who sleeps (will power at 50
    /// or less puts a person to sleep) gains a point of will power, up to
    /// the most, and is described anew.
    pub fn on_time_update(&mut self, current_time: &TimeInfo, descs: &PersonDescriptions)
        requires
            old(self).age < u64::MAX,
            old(self).hp - 100 >= i32::MIN,
            old(self).mp < i32::MAX,
        ensures
            ticked(*old(self), *final(self), *current_time, *descs),
    {
        self.check_mp(0);
        self.age = self.age + 1;
        if !self.is_sleeping && current_time.hour != self.last_hunger_hour {
            self.check_hp(-100, descs);
            self.last_hunger_hour = current_time.hour;
        }
        if self.is_sleeping {
            self.check_mp(1);
            if self.mp > self.max_mp {
                self.mp = self.max_mp;
            }
            self.update_description(descs);
        } else {
            self.set_status(String::new());
        }
    }
}


/// `n` spaces.
pub open spec fn spaces(n: nat) -> Seq<char> {
    Seq::new(n, |i: int| ' ')
}

/// `s` right-aligned in `w` columns (`{:>w}`).
pub open spec fn pad_left(s: Seq<char>, w: nat) -> Seq<char> {
    if s.len() >= w {
        s
    } else {
        spaces((w - s.len()) as nat) + s
    }
}

/// `s` left-aligned in `w` columns (`{:<w}`).
pub open spec fn pad_right(s: Seq<char>, w: nat) -> Seq<char> {
    if s.len() >= w {
        s
    } else {
        s + spaces((w - s.len()) as nat)
    }
}

fn push_spaces(out: &mut String, n: usize)
    ensures
        final(out)@ == old(out)@ + spaces(n as nat),
{
    let mut i: usize = 0;
    while i < n
        invariant
            i <= n,
            out@ == old(out)@ + spaces(i as nat),
        decreases n - i,
    {
        push_char(out, ' ');
        proof {
            assert(old(out)@ + spaces(i as nat) + seq![' '] =~= old(out)@ + spaces((i + 1) as nat));
        }
        i = i + 1;
    }
}

/// Appends `s` right-aligned in `w` columns.
fn push_pad_left(out: &mut String, s: &str, w: usize)
    ensures
        final(out)@ == old(out)@ + pad_left(s@, w as nat),
{
    let n = s.unicode_len();
    if n < w {
        push_spaces(out, w - n);
    }
    out.append(s);
    proof {
        if n < w {
            assert(old(out)@ + spaces((w - n) as nat) + s@ =~= old(out)@ + pad_left(s@, w as nat));
        } else {
            assert(old(out)@ + s@ =~= old(out)@ + pad_left(s@, w as nat));
        }
    }
}

/// Appends `s` left-aligned in `w` columns.
fn push_pad_right(out: &mut String, s: &str, w: usize)
    ensures
        final(out)@ == old(out)@ + pad_right(s@, w as nat),
{
    let n = s.unicode_len();
    out.append(s);
    if n < w {
        push_spaces(out, w - n);
    }
    proof {
        if n < w {
            assert(old(out)@ + s@ + spaces((w - n) as nat) =~= old(out)@ + pad_right(s@, w as nat));
        } else {
            assert(old(out)@ + s@ =~= old(out)@ + pad_right(s@, w as nat));
        }
    }
}

/// The rule between the parts of a person's details.
pub open spec fn detail_rule() -> Seq<char> {
    "├─────────────────────────\n"@
}

/// The lines listing the carried items `l`.
pub open spec fn item_lines(l: Seq<(String, u32)>) -> Seq<char>
    decreases l.len(),
{
    if l.len() == 0 {
        Seq::empty()
    } else {
        item_lines(l.drop_last()) + "│  • "@ + l.last().0@ + " x"@ + decimal(l.last().1 as nat) + "\n"@
    }
}

/// The lines listing the abilities `a`.
pub open spec fn ability_lines(a: Seq<String>) -> Seq<char>
    decreases a.len(),
{
    if a.len() == 0 {
        Seq::empty()
    } else {
        ability_lines(a.drop_last()) + "│  • "@ + a.last()@ + "\n"@
    }
}

/// A line's text cut to its first 30 characters and `...` when longer.
pub open spec fn short_text(t: Seq<char>) -> Seq<char> {
    if t.len() > 30 {
        t.take(30) + "..."@
    } else {
        t
    }
}

/// The lines for the first `n` lines of dialogue `o`, numbered from 1.
pub open spec fn option_lines(o: Seq<DialogueOption>, n: int) -> Seq<char>
    decreases n,
{
    if n <= 0 {
        Seq::empty()
    } else {
        let opt = o[n - 1];
        option_lines(o, n - 1) + "│    "@ + decimal(n as nat) + ". "@ + short_text(opt.text@) + " ("@ + (if opt.conditions@.len()
            == 0 {
            "無條件"@
        } else {
            decimal(opt.conditions@.len()) + " 個條件"@
        }) + ")\n"@
    }
}

/// The lines for the topics of dialogue `d` and their lines.
pub open spec fn topic_lines(d: Seq<(String, Vec<DialogueOption>)>) -> Seq<char>
    decreases d.len(),
{
    if d.len() == 0 {
        Seq::empty()
    } else {
        let e = d.last();
        topic_lines(d.drop_last()) + "│  ["@ + e.0@ + "] "@ + decimal(e.1@.len()) + " 個選項\n"@ + option_lines(
            e.1@,
            e.1@.len() as int,
        )
    }
}

/// The lines naming a person: name, description, place and status.
pub open spec fn place_text(p: Person) -> Seq<char> {
    " "@ + p.name@ + " \n"@ + "│ "@ + p.description@ + "\n"@ + "│ 位置: ("@ + decimal(p.x as nat) + ", "@ + decimal(
        p.y as nat,
    ) + ") @ "@ + p.map@ + "\n"@ + "│ 狀態: "@ + p.status@ + "\n"@
}

/// The lines of health and will power.
pub open spec fn power_text(p: Person) -> Seq<char> {
    "│ HP: "@ + pad_left(signed_decimal(p.hp as int), 3) + "/"@ + pad_right(signed_decimal(p.max_hp as int), 3)
        + "  力量: "@ + signed_decimal(p.strength as int) + "\n"@ + "│ MP: "@ + pad_left(signed_decimal(p.mp as int), 3)
        + "/"@ + pad_right(signed_decimal(p.max_mp as int), 3) + "  知識: "@ + signed_decimal(p.knowledge as int) + "\n"@
}

/// The lines of age, sociality, gender and looks.
pub open spec fn traits_text(p: Person) -> Seq<char> {
    "│ 年齡: "@ + decimal(p.age as nat) + "秒   交誼: "@ + signed_decimal(p.sociality as int) + "\n"@ + "│ 性別: "@
        + p.gender@ + "    顏值: "@ + signed_decimal(p.appearance as int) + "\n"@
}

/// The heading lines of a person's details.
pub open spec fn head_text(p: Person) -> Seq<char> {
    place_text(p) + power_text(p) + traits_text(p)
}

/// The relation to the player, when there is one to tell.
pub open spec fn relation_text(p: Person) -> Seq<char> {
    if p.met_player || p.relationship != 0 || p.interaction_count > 0 {
        detail_rule() + "│ 關係: "@ + dialogue_state_text(p.relationship) + " ("@ + signed_decimal(p.relationship as int)
            + ")"@ + "\n"@ + (if p.met_player {
            "│ 互動次數: "@ + decimal(p.interaction_count as nat) + "\n"@
        } else {
            Seq::empty()
        })
    } else {
        Seq::empty()
    }
}

/// The items carried, when any are listed.
pub open spec fn items_text(p: Person) -> Seq<char> {
    if p.items.listing().len() > 0 {
        detail_rule() + "│ 持有物品:\n"@ + item_lines(p.items.listing())
    } else {
        Seq::empty()
    }
}

/// The abilities, when there are any.
pub open spec fn abilities_text(p: Person) -> Seq<char> {
    if p.abilities@.len() > 0 {
        detail_rule() + "│ 能力:\n"@ + ability_lines(p.abilities@)
    } else {
        Seq::empty()
    }
}

/// The dialogue, or only the eagerness to talk when there is none.
pub open spec fn talk_text(p: Person) -> Seq<char> {
    if p.dialogues@.len() > 0 {
        detail_rule() + "│ 對話 (積極度: "@ + decimal(p.talk_eagerness as nat) + "%)\n"@ + topic_lines(p.dialogues@)
    } else if p.talk_eagerness > 0 {
        detail_rule() + "│ 說話積極度: "@ + decimal(p.talk_eagerness as nat) + "%\n"@
    } else {
        Seq::empty()
    }
}

/// The details of `p` as shown to the player: the heading; then, each
/// under a rule when there is anything to say, the relation to the player,
/// the items carried, the abilities, and the dialogue.
pub open spec fn detail_text(p: Person) -> Seq<char> {
    head_text(p) + relation_text(p) + items_text(p) + abilities_text(p) + talk_text(p) + "└─────────────────────────\n"@
}

#[verifier::rlimit(40)]
fn push_option_lines(out: &mut String, o: &Vec<DialogueOption>)
    ensures
        final(out)@ == old(out)@ + option_lines(o@, o@.len() as int),
{
    let mut i: usize = 0;
    while i < o.len()
        invariant
            i <= o@.len(),
            out@ == old(out)@ + option_lines(o@, i as int),
        decreases o@.len() - i,
    {
        let ghost before = out@;
        let opt = &o[i];
        out.append("│    ");
        push_decimal(out, (i + 1) as u64);
        out.append(". ");
        let c = chars_of(opt.text.as_str());
        if c.len() > 30 {
            let t = string_of(&c, 0, 30);
            out.append(t.as_str());
            out.append("...");
            proof {
                assert(t@ =~= opt.text@.take(30));
            }
        } else {
            out.append(opt.text.as_str());
        }
        out.append(" (");
        if opt.conditions.len() == 0 {
            out.append("無條件");
        } else {
            push_decimal(out, opt.conditions.len() as u64);
            out.append(" 個條件");
        }
        out.append(")\n");
        proof {
            reveal_strlit("│    ");
            reveal_strlit(". ");
            reveal_strlit("...");
            reveal_strlit(" (");
            reveal_strlit("無條件");
            reveal_strlit(" 個條件");
            reveal_strlit(")\n");
            assert(out@ =~= before + "│    "@ + decimal((i + 1) as nat) + ". "@ + short_text(opt.text@) + " ("@ + (
            if opt.conditions@.len() == 0 {
                "無條件"@
            } else {
                decimal(opt.conditions@.len()) + " 個條件"@
            }) + ")\n"@);
            assert(old(out)@ + option_lines(o@, i + 1) =~= old(out)@ + option_lines(o@, i as int) + "│    "@ + decimal(
                (i + 1) as nat,
            ) + ". "@ + short_text(opt.text@) + " ("@ + (if opt.conditions@.len() == 0 {
                "無條件"@
            } else {
                decimal(opt.conditions@.len()) + " 個條件"@
            }) + ")\n"@);
        }
        i = i + 1;
    }
}

fn push_place(info: &mut String, p: &Person)
    ensures
        final(info)@ == old(info)@ + place_text(*p),
{
    proof {
        reveal_strlit(" ");
        reveal_strlit(" \n");
        reveal_strlit("│ ");
        reveal_strlit("\n");
        reveal_strlit("│ 位置: (");
        reveal_strlit(", ");
        reveal_strlit(") @ ");
        reveal_strlit("│ 狀態: ");
    }
    info.append(" ");
    info.append(p.name.as_str());
    info.append(" \n");
    info.append("│ ");
    info.append(p.description.as_str());
    info.append("\n");
    info.append("│ 位置: (");
    push_decimal(info, p.x as u64);
    info.append(", ");
    push_decimal(info, p.y as u64);
    info.append(") @ ");
    info.append(p.map.as_str());
    info.append("\n");
    info.append("│ 狀態: ");
    info.append(p.status.as_str());
    info.append("\n");
    proof {
        assert(info@ =~= old(info)@ + place_text(*p));
    }
}

fn push_power(info: &mut String, p: &Person)
    ensures
        final(info)@ == old(info)@ + power_text(*p),
{
    proof {
        reveal_strlit("\n");
        reveal_strlit("│ HP: ");
        reveal_strlit("/");
        reveal_strlit("  力量: ");
        reveal_strlit("│ MP: ");
        reveal_strlit("  知識: ");
    }
    info.append("│ HP: ");
    let hp = signed_string(p.hp as i64);
    push_pad_left(info, hp.as_str(), 3);
    info.append("/");
    let max_hp = signed_string(p.max_hp as i64);
    push_pad_right(info, max_hp.as_str(), 3);
    info.append("  力量: ");
    push_signed(info, p.strength as i64);
    info.append("\n");
    info.append("│ MP: ");
    let mp = signed_string(p.mp as i64);
    push_pad_left(info, mp.as_str(), 3);
    info.append("/");
    let max_mp = signed_string(p.max_mp as i64);
    push_pad_right(info, max_mp.as_str(), 3);
    info.append("  知識: ");
    push_signed(info, p.knowledge as i64);
    info.append("\n");
    proof {
        assert(info@ =~= old(info)@ + power_text(*p));
    }
}

fn push_traits(info: &mut String, p: &Person)
    ensures
        final(info)@ == old(info)@ + traits_text(*p),
{
    proof {
        reveal_strlit("\n");
        reveal_strlit("│ 年齡: ");
        reveal_strlit("秒   交誼: ");
        reveal_strlit("│ 性別: ");
        reveal_strlit("    顏值: ");
    }
    info.append("│ 年齡: ");
    push_decimal(info, p.age);
    info.append("秒   交誼: ");
    push_signed(info, p.sociality as i64);
    info.append("\n");
    info.append("│ 性別: ");
    info.append(p.gender.as_str());
    info.append("    顏值: ");
    push_signed(info, p.appearance as i64);
    info.append("\n");
    proof {
        assert(info@ =~= old(info)@ + traits_text(*p));
    }
}

fn push_head(info: &mut String, p: &Person)
    ensures
        final(info)@ == old(info)@ + head_text(*p),
{
    push_place(info, p);
    push_power(info, p);
    push_traits(info, p);
    proof {
        assert(info@ =~= old(info)@ + head_text(*p));
    }
}

fn push_relation(info: &mut String, p: &Person)
    ensures
        final(info)@ == old(info)@ + relation_text(*p),
{
    proof {
        reveal_strlit("\n");
        reveal_strlit("├─────────────────────────\n");
        reveal_strlit("│ 關係: ");
        reveal_strlit("│ 互動次數: ");
    }
    if p.met_player || p.relationship != 0 || p.interaction_count > 0 {
        info.append("├─────────────────────────\n");
        info.append("│ 關係: ");
        let rd = p.get_relationship_description();
        info.append(rd.as_str());
        info.append("\n");
        if p.met_player {
            info.append("│ 互動次數: ");
            push_decimal(info, p.interaction_count as u64);
            info.append("\n");
        }
        proof {
            assert(info@ =~= old(info)@ + relation_text(*p));
        }
    } else {
        proof {
            assert(info@ =~= old(info)@ + relation_text(*p));
        }
    }
}

fn push_items(info: &mut String, p: &Person)
    ensures
        final(info)@ == old(info)@ + items_text(*p),
{
    proof {
        reveal_strlit("\n");
        reveal_strlit("├─────────────────────────\n");
        reveal_strlit("│ 持有物品:\n");
        reveal_strlit("│  • ");
        reveal_strlit(" x");
    }
    if !p.items.is_empty() {
        info.append("├─────────────────────────\n");
        info.append("│ 持有物品:\n");
        let ghost start = info@;
        let mut i: usize = 0;
        proof {
            assert(p.items.listing().take(0) =~= Seq::<(String, u32)>::empty());
        }
        while i < p.items.len()
            invariant
                i <= p.items.listing().len(),
                info@ == start + item_lines(p.items.listing().take(i as int)),
            decreases p.items.listing().len() - i,
        {
            let (name, q) = p.items.entry(i);
            info.append("│  • ");
            info.append(name.as_str());
            info.append(" x");
            push_decimal(info, q as u64);
            info.append("\n");
            proof {
                let l = p.items.listing();
                assert(l.take(i + 1).drop_last() =~= l.take(i as int));
                assert(info@ =~= start + item_lines(l.take(i + 1)));
            }
            i = i + 1;
        }
        proof {
            assert(p.items.listing().take(i as int) =~= p.items.listing());
            assert(info@ =~= old(info)@ + items_text(*p));
        }
    } else {
        proof {
            assert(info@ =~= old(info)@ + items_text(*p));
        }
    }
}

fn push_abilities(info: &mut String, p: &Person)
    ensures
        final(info)@ == old(info)@ + abilities_text(*p),
{
    proof {
        reveal_strlit("\n");
        reveal_strlit("├─────────────────────────\n");
        reveal_strlit("│ 能力:\n");
        reveal_strlit("│  • ");
    }
    if p.abilities.len() > 0 {
        info.append("├─────────────────────────\n");
        info.append("│ 能力:\n");
        let ghost start = info@;
        let mut i: usize = 0;
        proof {
            assert(p.abilities@.take(0) =~= Seq::<String>::empty());
        }
        while i < p.abilities.len()
            invariant
                i <= p.abilities@.len(),
                info@ == start + ability_lines(p.abilities@.take(i as int)),
            decreases p.abilities@.len() - i,
        {
            info.append("│  • ");
            info.append(p.abilities[i].as_str());
            info.append("\n");
            proof {
                let l = p.abilities@;
                assert(l.take(i + 1).drop_last() =~= l.take(i as int));
                assert(info@ =~= start + ability_lines(l.take(i + 1)));
            }
            i = i + 1;
        }
        proof {
            assert(p.abilities@.take(i as int) =~= p.abilities@);
            assert(info@ =~= old(info)@ + abilities_text(*p));
        }
    } else {
        proof {
            assert(info@ =~= old(info)@ + abilities_text(*p));
        }
    }
}

fn push_talk(info: &mut String, p: &Person)
    ensures
        final(info)@ == old(info)@ + talk_text(*p),
{
    proof {
        reveal_strlit("├─────────────────────────\n");
        reveal_strlit("│ 對話 (積極度: ");
        reveal_strlit("%)\n");
        reveal_strlit("│  [");
        reveal_strlit("] ");
        reveal_strlit(" 個選項\n");
        reveal_strlit("│ 說話積極度: ");
        reveal_strlit("%\n");
    }
    if p.dialogues.len() > 0 {
        info.append("├─────────────────────────\n");
        info.append("│ 對話 (積極度: ");
        push_decimal(info, p.talk_eagerness as u64);
        info.append("%)\n");
        let ghost start = info@;
        let mut i: usize = 0;
        proof {
            assert(p.dialogues@.take(0) =~= Seq::<(String, Vec<DialogueOption>)>::empty());
        }
        while i < p.dialogues.len()
            invariant
                i <= p.dialogues@.len(),
                info@ == start + topic_lines(p.dialogues@.take(i as int)),
            decreases p.dialogues@.len() - i,
        {
            let e = &p.dialogues[i];
            info.append("│  [");
            info.append(e.0.as_str());
            info.append("] ");
            push_decimal(info, e.1.len() as u64);
            info.append(" 個選項\n");
            push_option_lines(info, &e.1);
            proof {
                let l = p.dialogues@;
                assert(l.take(i + 1).drop_last() =~= l.take(i as int));
                assert(info@ =~= start + topic_lines(l.take(i + 1)));
            }
            i = i + 1;
        }
        proof {
            assert(p.dialogues@.take(i as int) =~= p.dialogues@);
            assert(info@ =~= old(info)@ + talk_text(*p));
        }
    } else if p.talk_eagerness > 0 {
        info.append("├─────────────────────────\n");
        info.append("│ 說話積極度: ");
        push_decimal(info, p.talk_eagerness as u64);
        info.append("%\n");
        proof {
            assert(info@ =~= old(info)@ + talk_text(*p));
        }
    } else {
        proof {
            assert(info@ =~= old(info)@ + talk_text(*p));
        }
    }
}

impl Person {
    /// The person's details as shown to the player (see [`detail_text`]).
    pub fn show_detail(&self) -> (r: String)
        ensures
            r@ == detail_text(*self),
    {
        let mut info = String::new();
        push_head(&mut info, self);
        push_relation(&mut info, self);
        push_items(&mut info, self);
        push_abilities(&mut info, self);
        push_talk(&mut info, self);
        info.append("└─────────────────────────\n");
        proof {
            reveal_strlit("└─────────────────────────\n");
            assert(info@ =~= detail_text(*self));
        }
        info
    }
}


/// The line shouted with the move `skill` by `p`: the one set for it, or
/// an empty text when none is.
pub open spec fn skill_line(p: Person, skill: Seq<char>) -> Seq<char> {
    match value_at_key(p.skill_dialogues@, skill) {
        Some(l) => l@,
        None => Seq::empty(),
    }
}

impl Person {
    /// What the person shouts with the move `skill_name` (see
    /// [`skill_line`]).
    pub fn get_skill_dialogue(&self, skill_name: &str) -> (r: String)
        ensures
            r@ == skill_line(*self, skill_name@),
    {
        match find_key(&self.skill_dialogues, skill_name) {
            Some(i) => self.skill_dialogues[i].1.clone(),
            None => String::new(),
        }
    }
}


/// A key's position lies within the entries.
pub proof fn lemma_key_position_range<V>(s: Seq<(String, V)>, k: Seq<char>)
    ensures
        key_position(s, k) matches Some(i) ==> is_first_key(s, k, i) && 0 <= i < s.len(),
{
    if exists|i: int| is_first_key(s, k, i) {
        let i = choose|i: int| is_first_key(s, k, i);
    }
}

} // verus!
