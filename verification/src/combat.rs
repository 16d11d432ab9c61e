//! Turn-based fights between the player and other people: starting one,
//! attacking, the rounds, the end and escaping. Each command answers with
//! what it tells the player on the main area; keeping the fighters on
//! disk is left to the caller.
use vstd::prelude::*;
use crate::command_interact::{flat, tell, told};
use crate::core_output::OutputZone;
use crate::npc_manager::NpcManager;
use crate::person::{
    div_toward_zero, find_key, hp_check, key_position, person_words, skill_line, value_at_key, CombatSkill, Person,
    PersonDescriptions,
};
use crate::text::{decimal, push_decimal, push_signed, signed_decimal, str_eq, strs_view};
use crate::random::{random_below, random_ratio};
use crate::command_interact::positions_small;
use crate::npc_rules::{abs_diff, manhattan_distance};
use crate::world::{CombatState, GameWorld};

verus! {

/// The number of `parts` that lead to the entry `j` of `m`.
pub open spec fn hits(m: NpcManager, parts: Seq<Seq<char>>, j: int) -> nat
    decreases parts.len(),
{
    if parts.len() == 0 {
        0
    } else {
        hits(m, parts.drop_last(), j) + if m.found(parts.last()) == Some(j) {
            1nat
        } else {
            0nat
        }
    }
}

proof fn lemma_hits_le(m: NpcManager, parts: Seq<Seq<char>>, j: int)
    ensures
        hits(m, parts, j) <= parts.len(),
    decreases parts.len(),
{
    if parts.len() > 0 {
        lemma_hits_le(m, parts.drop_last(), j);
    }
}

/// Everyone's fighting experience is at most 2^30 in size.
pub open spec fn exp_small(m: NpcManager) -> bool {
    forall|i: int| 0 <= i < m.people().len() ==> -0x4000_0000 <= (#[trigger] m.people()[i]).1.combat_exp <= 0x4000_0000
}

/// Raising each person's experience by `exp` for each of `parts` that leads
/// to them keeps it within the range of an `i32`.
pub open spec fn exp_fits(m: NpcManager, parts: Seq<Seq<char>>, exp: i32) -> bool {
    forall|j: int|
        0 <= j < m.people().len() ==> i32::MIN <= (#[trigger] m.people()[j]).1.combat_exp + exp * hits(m, parts, j)
            <= i32::MAX
}

proof fn lemma_hits_prefix(m: NpcManager, parts: Seq<Seq<char>>, k: int, j: int)
    requires
        0 <= k <= parts.len(),
    ensures
        hits(m, parts.take(k), j) <= hits(m, parts, j),
    decreases parts.len(),
{
    if k == parts.len() {
        assert(parts.take(k) =~= parts);
    } else {
        assert(parts.drop_last().take(k) =~= parts.take(k));
        lemma_hits_prefix(m, parts.drop_last(), k, j);
    }
}

/// Small experience, few fighters and a small gain leave room for it.
proof fn lemma_small_fits(m: NpcManager, parts: Seq<Seq<char>>, exp: i32)
    requires
        exp_small(m),
        parts.len() <= 0x100,
        -0x20_0000 <= exp <= 0x20_0000,
    ensures
        exp_fits(m, parts, exp),
{
    assert forall|j: int| 0 <= j < m.people().len() implies i32::MIN <= (#[trigger] m.people()[j]).1.combat_exp + exp
        * hits(m, parts, j) <= i32::MAX by {
        lemma_hits_le(m, parts, j);
        let h = hits(m, parts, j);
        assert(-0x20_0000 * 0x100 <= exp * h <= 0x20_0000 * 0x100) by (nonlinear_arith)
            requires
                -0x20_0000 <= exp <= 0x20_0000,
                0 <= h <= 0x100,
        ;
    }
}

/// `t` is `m` with each person's experience raised by `exp` for each of
/// `parts` that leads to them.
pub open spec fn exp_given(m: NpcManager, t: NpcManager, parts: Seq<Seq<char>>, exp: i32) -> bool {
    &&& t.wf()
    &&& t.alias_list() == m.alias_list()
    &&& t.distance_list() == m.distance_list()
    &&& t.people().len() == m.people().len()
    &&& forall|j: int|
        0 <= j < m.people().len() ==> (#[trigger] t.people()[j]) == (
            m.people()[j].0,
            Person { combat_exp: (m.people()[j].1.combat_exp + exp * hits(m, parts, j)) as i32, ..m.people()[j].1 },
        )
}

proof fn lemma_same_found(m: NpcManager, t: NpcManager, q: Seq<char>)
    requires
        t.alias_list() == m.alias_list(),
        t.people().len() == m.people().len(),
        forall|j: int|
            0 <= j < m.people().len() ==> (#[trigger] t.people()[j]).0 == m.people()[j].0 && t.people()[j].1.name
                == m.people()[j].1.name,
    ensures
        t.found(q) == m.found(q),
{
    crate::command_interact::lemma_found_stable(m, t, q);
}

/// Gives `exp` experience to each of `parts` that leads to a person.
fn give_exp(m: &mut NpcManager, parts: &Vec<String>, exp: i32)
    requires
        old(m).wf(),
        exp_fits(*old(m), strs_view(parts@), exp),
    ensures
        exp_given(*old(m), *final(m), strs_view(parts@), exp),
{
    let ghost m0 = *m;
    let ghost pv = strs_view(parts@);
    let mut k: usize = 0;
    proof {
        assert(pv.take(0) =~= Seq::<Seq<char>>::empty());
        assert forall|j: int| 0 <= j < m0.people().len() implies (#[trigger] m.people()[j]) == (
            m0.people()[j].0,
            Person { combat_exp: (m0.people()[j].1.combat_exp + exp * hits(m0, pv.take(0), j)) as i32, ..m0.people()[j].1 },
        ) by {
            assert(hits(m0, pv.take(0), j) == 0);
            assert(exp * 0 == 0) by (nonlinear_arith);
        }
    }
    while k < parts.len()
        invariant
            k <= parts@.len(),
            pv == strs_view(parts@),
            m0 == *old(m),
            exp_fits(m0, pv, exp),
            m0.wf(),
            exp_given(m0, *m, pv.take(k as int), exp),
        decreases parts@.len() - k,
    {
        let ghost cur = *m;
        proof {
            assert(pv[k as int] == parts@[k as int]@);
            lemma_same_found(m0, cur, pv[k as int]);
            crate::npc_manager::lemma_found_in_range(m0, pv[k as int]);
            assert(pv.take(k + 1).drop_last() =~= pv.take(k as int));
            assert(pv.take(k + 1).last() == pv[k as int]);
        }
        match m.get_npc_mut(parts[k].as_str()) {
            Some(p) => {
                proof {
                    let j = m0.found(pv[k as int])->0;
                    let h = hits(m0, pv.take(k as int), j);
                    lemma_hits_prefix(m0, pv, k + 1, j);
                    let hh = hits(m0, pv, j);
                    let c0 = m0.people()[j].1.combat_exp;
                    assert(m0.people()[j] == m0.people()[j]);
                    assert(i32::MIN <= c0 + exp * hh <= i32::MAX);
                    assert(i32::MIN <= c0 + exp * (h + 1) <= i32::MAX && i32::MIN <= c0 + exp * h <= i32::MAX)
                        by (nonlinear_arith)
                        requires
                            i32::MIN <= c0 <= i32::MAX,
                            i32::MIN <= c0 + exp * hh <= i32::MAX,
                            0 <= h + 1 <= hh,
                    ;
                    assert(cur.people()[j].1.combat_exp == c0 + exp * h);
                    assert(exp * (h + 1) == exp * h + exp) by (nonlinear_arith);
                }
                p.combat_exp = p.combat_exp + exp;
            },
            None => {},
        }
        proof {
            assert forall|j: int| 0 <= j < m0.people().len() implies (#[trigger] m.people()[j]) == (
                m0.people()[j].0,
                Person {
                    combat_exp: (m0.people()[j].1.combat_exp + exp * hits(m0, pv.take(k + 1), j)) as i32,
                    ..m0.people()[j].1
                },
            ) by {
                if m0.found(pv[k as int]) == Some(j) {
                    let h = hits(m0, pv.take(k as int), j);
                    lemma_hits_prefix(m0, pv, k + 1, j);
                    let hh = hits(m0, pv, j);
                    let c0 = m0.people()[j].1.combat_exp;
                    assert(m0.people()[j] == m0.people()[j]);
                    assert(i32::MIN <= c0 + exp * hh <= i32::MAX);
                    assert(i32::MIN <= c0 + exp * (h + 1) <= i32::MAX && i32::MIN <= c0 + exp * h <= i32::MAX)
                        by (nonlinear_arith)
                        requires
                            i32::MIN <= c0 <= i32::MAX,
                            i32::MIN <= c0 + exp * hh <= i32::MAX,
                            0 <= h + 1 <= hh,
                    ;
                    assert(exp * (h + 1) == exp * h + exp) by (nonlinear_arith);
                }
            }
        }
        k = k + 1;
    }
    proof {
        assert(pv.take(k as int) =~= pv);
    }
}

/// What `handle_escape` leaves behind and answers.
pub open spec fn handle_escape_done(old_world: GameWorld, new_world: GameWorld, r: Seq<(OutputZone, String)>) -> bool {
    &&& new_world.npc_manager.wf()
    &&& match old_world.combat_state {
        CombatState::NotInCombat => told(r) == seq![(OutputZone::Main, "你不在戰鬥中"@)] && new_world
            == old_world,
        CombatState::InCombat { participants, round } => {
            let exp = div_toward_zero(round as int, 2);
            &&& exp_given(
                old_world.npc_manager,
                new_world.npc_manager,
                strs_view(participants@),
                exp as i32,
            )
            &&& new_world == (GameWorld {
                npc_manager: new_world.npc_manager,
                combat_state: CombatState::NotInCombat,
                ..old_world
            })
            &&& told(r) == seq![
                (OutputZone::Main, "逃跑獲得 "@ + signed_decimal(exp) + " 點戰鬥經驗"@),
                (OutputZone::Main, "你逃離了戰鬥！"@),
            ]
        },
    }
}

/// When `handle_escape` may be called.
pub open spec fn handle_escape_ready(old_world: GameWorld) -> bool {
    &&& old_world.npc_manager.wf()
    &&& old_world.combat_state matches CombatState::InCombat { participants, round } ==> exp_fits(
        old_world.npc_manager,
        strs_view(participants@),
        div_toward_zero(round as int, 2) as i32,
    )
}

/// Leaves the fight: everyone in it gets half the rounds (rounded toward
/// zero) as experience; nothing happens outside a fight.
pub fn handle_escape(game_world: &mut GameWorld) -> (r: Vec<(OutputZone, String)>)
    requires
        old(game_world).npc_manager.wf(),
        old(game_world).combat_state matches CombatState::InCombat { participants, round } ==> exp_fits(
            old(game_world).npc_manager,
            strs_view(participants@),
            div_toward_zero(round as int, 2) as i32,
        ),
    ensures
        handle_escape_done(*old(game_world), *final(game_world), r@),
{
    let mut out: Vec<(OutputZone, String)> = Vec::new();
    let (participants, round) = match &game_world.combat_state {
        CombatState::InCombat { participants, round } => (participants.clone(), *round),
        CombatState::NotInCombat => {
            tell(&mut out, OutputZone::Main, String::from_str("你不在戰鬥中"));
            proof {
                assert(told(out@) =~= seq![(OutputZone::Main, "你不在戰鬥中"@)]);
            }
            return out;
        },
    };
    proof {
        assert(participants@ =~= (game_world.combat_state->participants)@);
    }
    let exp = round / 2;
    give_exp(&mut game_world.npc_manager, &participants, exp);
    let mut line = String::from_str("逃跑獲得 ");
    push_signed(&mut line, exp as i64);
    line.append(" 點戰鬥經驗");
    tell(&mut out, OutputZone::Main, line);
    game_world.combat_state = CombatState::NotInCombat;
    tell(&mut out, OutputZone::Main, String::from_str("你逃離了戰鬥！"));
    proof {
        reveal_strlit("逃跑獲得 ");
        reveal_strlit(" 點戰鬥經驗");
        assert(told(out@) =~= seq![
            (OutputZone::Main, "逃跑獲得 "@ + signed_decimal(exp as int) + " 點戰鬥經驗"@),
            (OutputZone::Main, "你逃離了戰鬥！"@),
        ]);
    }
    out
}


/// A person is too worn to fight on: below half of their most health.
pub open spec fn worn(p: Person) -> bool {
    p.hp < div_toward_zero(p.max_hp as int, 2)
}

/// For each of the fighters `ps` other than the player who is found and
/// worn, that their fight is over.
pub open spec fn worn_lines(m: NpcManager, ps: Seq<Seq<char>>) -> Seq<(OutputZone, Seq<char>)>
    decreases ps.len(),
{
    if ps.len() == 0 {
        Seq::empty()
    } else {
        let prev = worn_lines(m, ps.drop_last());
        let p = ps.last();
        if p == "me"@ {
            prev
        } else {
            match m.found(p) {
                Some(j) => if worn(m.people()[j].1) {
                    prev.push((OutputZone::Main, m.people()[j].1.name@ + " 的HP低於50%，戰鬥結束！"@))
                } else {
                    prev
                },
                None => prev,
            }
        }
    }
}

/// For each of the fighters `ps` other than the player who is found, their
/// health.
pub open spec fn health_lines(m: NpcManager, ps: Seq<Seq<char>>) -> Seq<(OutputZone, Seq<char>)>
    decreases ps.len(),
{
    if ps.len() == 0 {
        Seq::empty()
    } else {
        let prev = health_lines(m, ps.drop_last());
        let p = ps.last();
        if p == "me"@ {
            prev
        } else {
            match m.found(p) {
                Some(j) => prev.push(
                    (
                        OutputZone::Main,
                        m.people()[j].1.name@ + " 的 HP: "@ + signed_decimal(m.people()[j].1.hp as int) + "/"@
                            + signed_decimal(m.people()[j].1.max_hp as int),
                    ),
                ),
                None => prev,
            }
        }
    }
}

/// The player is found and worn.
pub open spec fn me_worn(m: NpcManager) -> bool {
    m.found("me"@) matches Some(a) && worn(m.people()[a].1)
}

/// What ending a fight tells, the fighters being `ps` after `round`
/// rounds: who is worn, that the fight is over, everyone's health, and the
/// experience gained (twice the rounds).
pub open spec fn end_text(m: NpcManager, ps: Seq<Seq<char>>, round: i32) -> Seq<(OutputZone, Seq<char>)> {
    (if me_worn(m) {
        seq![(OutputZone::Main, "你的HP低於50%，戰鬥結束！"@)]
    } else {
        Seq::empty()
    }) + worn_lines(m, ps) + seq![(OutputZone::Main, "⚔️  戰鬥結束！"@)] + match m.found("me"@) {
        Some(a) => seq![
            (OutputZone::Main, "你的 HP: "@ + signed_decimal(m.people()[a].1.hp as int) + "/"@ + signed_decimal(
                m.people()[a].1.max_hp as int,
            )),
        ],
        None => Seq::empty(),
    } + health_lines(m, ps) + seq![(OutputZone::Main, "獲得 "@ + signed_decimal(round * 2) + " 點戰鬥經驗！"@)]
}

fn worn_report(m: &NpcManager, ps: &Vec<String>) -> (r: Vec<(OutputZone, String)>)
    requires
        m.wf(),
    ensures
        told(r@) == worn_lines(*m, strs_view(ps@)),
{
    let ghost pv = strs_view(ps@);
    let mut out: Vec<(OutputZone, String)> = Vec::new();
    let mut k: usize = 0;
    proof {
        assert(pv.take(0) =~= Seq::<Seq<char>>::empty());
        reveal_strlit("me");
        reveal_strlit(" 的HP低於50%，戰鬥結束！");
    }
    while k < ps.len()
        invariant
            k <= ps@.len(),
            m.wf(),
            pv == strs_view(ps@),
            told(out@) == worn_lines(*m, pv.take(k as int)),
        decreases ps@.len() - k,
    {
        proof {
            assert(pv.take(k + 1).drop_last() =~= pv.take(k as int));
            assert(pv.take(k + 1).last() == pv[k as int]);
            assert(pv[k as int] == ps@[k as int]@);
        }
        if !str_eq(ps[k].as_str(), "me") {
            match m.get_npc(ps[k].as_str()) {
                Some(p) => {
                    if p.hp < p.max_hp / 2 {
                        let mut line = p.name.clone();
                        line.append(" 的HP低於50%，戰鬥結束！");
                        tell(&mut out, OutputZone::Main, line);
                    }
                },
                None => {},
            }
        }
        k = k + 1;
    }
    proof {
        assert(pv.take(k as int) =~= pv);
    }
    out
}

fn health_report(m: &NpcManager, ps: &Vec<String>) -> (r: Vec<(OutputZone, String)>)
    requires
        m.wf(),
    ensures
        told(r@) == health_lines(*m, strs_view(ps@)),
{
    let ghost pv = strs_view(ps@);
    let mut out: Vec<(OutputZone, String)> = Vec::new();
    let mut k: usize = 0;
    proof {
        assert(pv.take(0) =~= Seq::<Seq<char>>::empty());
        reveal_strlit("me");
        reveal_strlit(" 的 HP: ");
        reveal_strlit("/");
    }
    while k < ps.len()
        invariant
            k <= ps@.len(),
            m.wf(),
            pv == strs_view(ps@),
            told(out@) == health_lines(*m, pv.take(k as int)),
        decreases ps@.len() - k,
    {
        proof {
            assert(pv.take(k + 1).drop_last() =~= pv.take(k as int));
            assert(pv.take(k + 1).last() == pv[k as int]);
            assert(pv[k as int] == ps@[k as int]@);
        }
        if !str_eq(ps[k].as_str(), "me") {
            match m.get_npc(ps[k].as_str()) {
                Some(p) => {
                    let mut line = p.name.clone();
                    line.append(" 的 HP: ");
                    push_signed(&mut line, p.hp as i64);
                    line.append("/");
                    push_signed(&mut line, p.max_hp as i64);
                    tell(&mut out, OutputZone::Main, line);
                },
                None => {},
            }
        }
        k = k + 1;
    }
    proof {
        assert(pv.take(k as int) =~= pv);
    }
    out
}

/// `after` and `t` follow from `before` by checking whether the fight is
/// over (see [`check_combat_end`]).
pub open spec fn end_checked(before: GameWorld, after: GameWorld, t: Seq<(OutputZone, Seq<char>)>) -> bool {
    match before.combat_state {
        CombatState::NotInCombat => t.len() == 0 && after == before,
        CombatState::InCombat { participants, round } => {
            let m = before.npc_manager;
            let ps = strs_view(participants@);
            if !me_worn(m) && worn_lines(m, ps).len() == 0 {
                t.len() == 0 && after == before
            } else {
                &&& t == end_text(m, ps, round)
                &&& exp_given(m, after.npc_manager, ps, (round * 2) as i32)
                &&& after == (GameWorld {
                    npc_manager: after.npc_manager,
                    combat_state: CombatState::NotInCombat,
                    ..before
                })
            }
        },
    }
}

/// Ends the fight when the player or one of the others is worn (see
/// [`worn`]): tells it (see [`end_text`]) and gives each fighter twice
/// the rounds as experience.
pub fn check_combat_end(game_world: &mut GameWorld) -> (r: Vec<(OutputZone, String)>)
    requires
        old(game_world).npc_manager.wf(),
        old(game_world).combat_state matches CombatState::InCombat { participants, round } ==> {
            &&& i32::MIN <= 2 * round <= i32::MAX
            &&& exp_fits(old(game_world).npc_manager, strs_view(participants@), (2 * round) as i32)
        },
    ensures
        final(game_world).npc_manager.wf(),
        end_checked(*old(game_world), *final(game_world), told(r@)),
{
    let mut out: Vec<(OutputZone, String)> = Vec::new();
    let (participants, round) = match &game_world.combat_state {
        CombatState::InCombat { participants, round } => (participants.clone(), *round),
        CombatState::NotInCombat => {
            return out;
        },
    };
    proof {
        assert(participants@ =~= (game_world.combat_state->participants)@);
        reveal_strlit("me");
        reveal_strlit("你的HP低於50%，戰鬥結束！");
        reveal_strlit("⚔️  戰鬥結束！");
        reveal_strlit("你的 HP: ");
        reveal_strlit("/");
        reveal_strlit("獲得 ");
        reveal_strlit(" 點戰鬥經驗！");
    }
    let ghost m = game_world.npc_manager;
    let ghost ps = strs_view(participants@);
    let mut ended = false;
    match game_world.npc_manager.get_npc("me") {
        Some(me) => {
            if me.hp < me.max_hp / 2 {
                ended = true;
                tell(&mut out, OutputZone::Main, String::from_str("你的HP低於50%，戰鬥結束！"));
            }
        },
        None => {},
    }
    let ghost t1 = told(out@);
    proof {
        assert(t1 =~= (if me_worn(m) {
            seq![(OutputZone::Main, "你的HP低於50%，戰鬥結束！"@)]
        } else {
            Seq::empty()
        }));
    }
    let mut worn = worn_report(&game_world.npc_manager, &participants);
    if worn.len() > 0 {
        ended = true;
    }
    let ghost wv = told(worn@);
    let ghost before_worn = out@;
    out.append(&mut worn);
    proof {
        assert(told(out@) =~= told(before_worn) + wv);
    }
    let ghost t2 = told(out@);
    if !ended {
        proof {
            assert(told(out@) =~= Seq::<(OutputZone, Seq<char>)>::empty());
        }
        return out;
    }
    tell(&mut out, OutputZone::Main, String::from_str("⚔️  戰鬥結束！"));
    let ghost t3 = told(out@);
    match game_world.npc_manager.get_npc("me") {
        Some(me) => {
            let mut line = String::from_str("你的 HP: ");
            push_signed(&mut line, me.hp as i64);
            line.append("/");
            push_signed(&mut line, me.max_hp as i64);
            tell(&mut out, OutputZone::Main, line);
        },
        None => {},
    }
    let ghost t4 = told(out@);
    proof {
        assert(t4 =~= t3 + match m.found("me"@) {
            Some(a) => seq![
                (OutputZone::Main, "你的 HP: "@ + signed_decimal(m.people()[a].1.hp as int) + "/"@ + signed_decimal(
                    m.people()[a].1.max_hp as int,
                )),
            ],
            None => Seq::<(OutputZone, Seq<char>)>::empty(),
        });
    }
    let mut healths = health_report(&game_world.npc_manager, &participants);
    let ghost hv = told(healths@);
    let ghost before_h = out@;
    out.append(&mut healths);
    proof {
        assert(told(out@) =~= told(before_h) + hv);
    }
    let exp = round * 2;
    give_exp(&mut game_world.npc_manager, &participants, exp);
    let mut line = String::from_str("獲得 ");
    push_signed(&mut line, exp as i64);
    line.append(" 點戰鬥經驗！");
    tell(&mut out, OutputZone::Main, line);
    game_world.combat_state = CombatState::NotInCombat;
    proof {
        assert(told(out@) =~= end_text(m, ps, round));
    }
    out
}


/// The numbers of a fight are small: everyone's health, most health and
/// experience at most 2^30 in size, each move's damage at most 2^20 and
/// its proficiency at most `prof`.
pub open spec fn fight_small(m: NpcManager, prof: int) -> bool {
    forall|i: int|
        0 <= i < m.people().len() ==> {
            let p = (#[trigger] m.people()[i]).1;
            &&& -0x4000_0000 <= p.hp <= 0x4000_0000
            &&& -0x4000_0000 <= p.max_hp <= 0x4000_0000
            &&& -0x4000_0000 <= p.combat_exp <= 0x4000_0000
            &&& forall|k: int|
                0 <= k < p.combat_skills@.len() ==> -0x10_0000 <= (#[trigger] p.combat_skills@[k]).1.damage <= 0x10_0000
                    && p.combat_skills@[k].1.proficiency <= prof
        }
}

/// The fight's list of fighters and its round are small.
pub open spec fn fight_state_small(c: CombatState) -> bool {
    c matches CombatState::InCombat { participants, round } ==> participants@.len() <= 0x100 && -0x10_0000 <= round
        <= 0x10_0000
}

/// The rounds `p` must still wait before using `skill`; 0 for a move the
/// person does not know.
pub open spec fn cooldown_of(p: Person, skill: Seq<char>) -> i32 {
    match value_at_key(p.combat_skills@, skill) {
        Some(sk) => sk.current_cooldown,
        None => 0,
    }
}

/// The damage of `p`'s move `skill`; 1 for a move the person does not
/// know.
pub open spec fn damage_of(p: Person, skill: Seq<char>) -> i32 {
    match value_at_key(p.combat_skills@, skill) {
        Some(sk) => sk.damage,
        None => 1,
    }
}

/// `after` is `before` having practised the move `skill` in a fight (see
/// [`Person::practice_skill`]).
pub open spec fn practised(before: Person, after: Person, skill: Seq<char>) -> bool {
    match key_position(before.combat_skills@, skill) {
        None => after == before,
        Some(i) => {
            let sk = before.combat_skills@[i].1;
            if sk.current_cooldown > 0 {
                after == before
            } else {
                &&& after == (Person { combat_skills: after.combat_skills, ..before })
                &&& after.combat_skills@ == before.combat_skills@.update(
                    i,
                    (
                        before.combat_skills@[i].0,
                        CombatSkill { proficiency: (sk.proficiency + 2) as i32, current_cooldown: sk.cooldown, ..sk },
                    ),
                )
            }
        },
    }
}

/// `after` is `before` hit for `damage` (see [`crate::person::hp_check`]).
pub open spec fn hit(before: Person, after: Person, damage: i32, descs: PersonDescriptions) -> bool {
    let h = hp_check(before.hp, before.max_hp, (-damage) as i32);
    &&& after == (Person { hp: h.0 as i32, status: after.status, description: after.description, ..before })
    &&& after.status@ == h.1
    &&& after.description@ == person_words(descs, Person { hp: h.0 as i32, ..before })
}

/// `after` and `t` follow from `before` by the attack of `att` on `def`
/// with the move `skill`: when the move is ready, the one `def` finds is
/// hit for the move's damage (see [`hit`]) and told of it, the attacker
/// practises the move (see [`practised`]), and the fight may end (see
/// [`end_checked`]); a player whose move is not ready is told so.
pub open spec fn attack_done(
    before: GameWorld,
    after: GameWorld,
    skill: Seq<char>,
    att: Seq<char>,
    def: Seq<char>,
    t: Seq<(OutputZone, Seq<char>)>,
) -> bool {
    let m = before.npc_manager;
    match m.found(att) {
        None => t.len() == 0 && after == before,
        Some(a) => {
            let p = m.people()[a].1;
            if cooldown_of(p, skill) > 0 {
                &&& after == before
                &&& t == (if att == "me"@ {
                    seq![(OutputZone::Main, "你還沒準備好 "@ + skill)]
                } else {
                    Seq::empty()
                })
            } else {
                let damage = damage_of(p, skill);
                exists|m1: NpcManager, m2: NpcManager, t1: Seq<(OutputZone, Seq<char>)>, t2: Seq<(OutputZone, Seq<char>)>|
                    #[trigger] attack_steps(before, m1, m2, t1, skill, att, def, damage) && #[trigger] end_checked(
                        GameWorld { npc_manager: m2, ..before },
                        after,
                        t2,
                    ) && t == t1 + t2
            }
        },
    }
}

/// The middle of an attack: `m1` and `t1` after the hit, `m2` after the
/// practice.
pub open spec fn attack_steps(
    before: GameWorld,
    m1: NpcManager,
    m2: NpcManager,
    t1: Seq<(OutputZone, Seq<char>)>,
    skill: Seq<char>,
    att: Seq<char>,
    def: Seq<char>,
    damage: i32,
) -> bool {
    let m = before.npc_manager;
    let p = m.people()[m.found(att)->0].1;
    &&& match m.found(def) {
        None => m1 == m && t1.len() == 0,
        Some(d) => {
            let q = m1.people()[d].1;
            &&& crate::command_interact::person_changed(m, m1, d, q)
            &&& hit(m.people()[d].1, q, damage, before.person_descriptions)
            &&& t1 == seq![
                (OutputZone::Main, "💥 "@ + p.name@ + " 說：「"@ + skill_line(p, skill) + "」造成 "@ + signed_decimal(
                    damage as int,
                ) + " 點傷害！"@ + (if def == "me"@ {
                    "你"@
                } else {
                    m.people()[d].1.name@
                }) + " 剩餘 HP: "@ + signed_decimal(q.hp as int) + "/"@ + signed_decimal(q.max_hp as int)),
            ]
        },
    }
    &&& match m1.found(att) {
        None => m2 == m1,
        Some(a) => crate::command_interact::person_changed(m1, m2, a, m2.people()[a].1) && practised(
            m1.people()[a].1,
            m2.people()[a].1,
            skill,
        ),
    }
}

/// The attack of `attacker_id` on `defender_id` with the move
/// `skill_name` (see [`attack_done`]).
pub fn execute_attack(game_world: &mut GameWorld, skill_name: &str, attacker_id: &str, defender_id: &str) -> (r: Vec<
    (OutputZone, String),
>)
    requires
        old(game_world).npc_manager.wf(),
        fight_small(old(game_world).npc_manager, 0x4100_0000),
        fight_state_small(old(game_world).combat_state),
    ensures
        final(game_world).npc_manager.wf(),
        attack_done(*old(game_world), *final(game_world), skill_name@, attacker_id@, defender_id@, told(r@)),
{
    let ghost g0 = *game_world;
    let ghost m = game_world.npc_manager;
    let mut out: Vec<(OutputZone, String)> = Vec::new();
    proof {
        reveal_strlit("me");
        reveal_strlit("你還沒準備好 ");
        reveal_strlit("💥 ");
        reveal_strlit(" 說：「");
        reveal_strlit("」造成 ");
        reveal_strlit(" 點傷害！");
        reveal_strlit("你");
        reveal_strlit(" 剩餘 HP: ");
        reveal_strlit("/");
    }
    let (attacker_name, dialogue, damage) = match game_world.npc_manager.get_npc(attacker_id) {
        None => {
            return out;
        },
        Some(attacker) => {
            if attacker.get_skill_cooldown(skill_name) > 0 {
                if str_eq(attacker_id, "me") {
                    tell(&mut out, OutputZone::Main, crate::text::concat("你還沒準備好 ", skill_name));
                }
                proof {
                    assert(told(out@) =~= (if attacker_id@ == "me"@ {
                        seq![(OutputZone::Main, "你還沒準備好 "@ + skill_name@)]
                    } else {
                        Seq::empty()
                    }));
                }
                return out;
            }
            let damage: i32 = match find_key(&attacker.combat_skills, skill_name) {
                Some(i) => attacker.combat_skills[i].1.damage,
                None => 1,
            };
            (attacker.name.clone(), attacker.get_skill_dialogue(skill_name), damage)
        },
    };
    proof {
        crate::npc_manager::lemma_found_in_range(m, attacker_id@);
        crate::npc_manager::lemma_found_in_range(m, defender_id@);
        let a = m.found(attacker_id@)->0;
        let p = m.people()[a].1;
        if key_position(p.combat_skills@, skill_name@) is Some {
            let i = key_position(p.combat_skills@, skill_name@)->0;
            crate::person::lemma_key_position_range(p.combat_skills@, skill_name@);
        }
    }
    match game_world.npc_manager.get_npc_mut(defender_id) {
        Some(defender) => {
            defender.check_hp(-damage, &game_world.person_descriptions);
            let mut line = String::from_str("💥 ");
            line.append(attacker_name.as_str());
            line.append(" 說：「");
            line.append(dialogue.as_str());
            line.append("」造成 ");
            push_signed(&mut line, damage as i64);
            line.append(" 點傷害！");
            let ghost prefix = line@;
            if str_eq(defender_id, "me") {
                line.append("你");
            } else {
                line.append(defender.name.as_str());
            }
            let ghost who: Seq<char> = if defender_id@ == "me"@ {
                "你"@
            } else {
                defender.name@
            };
            proof {
                assert(line@ =~= prefix + who);
            }
            line.append(" 剩餘 HP: ");
            push_signed(&mut line, defender.hp as i64);
            line.append("/");
            push_signed(&mut line, defender.max_hp as i64);
            proof {
                assert(line@ =~= "💥 "@ + attacker_name@ + " 說：「"@ + dialogue@ + "」造成 "@ + signed_decimal(damage as int)
                    + " 點傷害！"@ + who + " 剩餘 HP: "@ + signed_decimal(defender.hp as int) + "/"@ + signed_decimal(
                    defender.max_hp as int,
                ));
            }
            tell(&mut out, OutputZone::Main, line);
            proof {
                assert(told(out@) =~= seq![
                    (OutputZone::Main, "💥 "@ + attacker_name@ + " 說：「"@ + dialogue@ + "」造成 "@ + signed_decimal(
                        damage as int,
                    ) + " 點傷害！"@ + who + " 剩餘 HP: "@ + signed_decimal(defender.hp as int) + "/"@ + signed_decimal(
                        defender.max_hp as int,
                    )),
                ]);
            }
        },
        None => {},
    }
    let ghost m1 = game_world.npc_manager;
    let ghost t1 = told(out@);
    proof {
        crate::command_interact::lemma_found_stable(m, m1, attacker_id@);
        assert(m1.found(attacker_id@) == m.found(attacker_id@)) by {
            assert forall|j: int| 0 <= j < m.people().len() implies (#[trigger] m1.people()[j]).0 == m.people()[j].0
                && m1.people()[j].1.name == m.people()[j].1.name by {}
            crate::command_interact::lemma_found_stable(m, m1, attacker_id@);
        }
    }
    match game_world.npc_manager.get_npc_mut(attacker_id) {
        Some(attacker) => {
            proof {
                let a = m.found(attacker_id@)->0;
                if key_position(attacker.combat_skills@, skill_name@) is Some {
                    crate::person::lemma_key_position_range(attacker.combat_skills@, skill_name@);
                }
            }
            let _ = attacker.practice_skill(skill_name, true);
        },
        None => {},
    }
    let ghost m2 = game_world.npc_manager;
    let ghost g2 = *game_world;
    proof {
        assert(g2 == (GameWorld { npc_manager: m2, ..g0 }));
    }
    proof {
        if let CombatState::InCombat { participants, round } = g2.combat_state {
            lemma_small_fits(m2, strs_view(participants@), (2 * round) as i32);
        }
    }
    let mut ended = check_combat_end(game_world);
    let ghost t2 = told(ended@);
    let ghost before_out = out@;
    out.append(&mut ended);
    proof {
        assert(told(out@) =~= told(before_out) + t2);
        let a = m.found(attacker_id@)->0;
        let p = m.people()[a].1;
        assert(damage == damage_of(p, skill_name@));
        assert(cooldown_of(p, skill_name@) <= 0);
        assert(attack_steps(g0, m1, m2, t1, skill_name@, attacker_id@, defender_id@, damage_of(p, skill_name@)));
        assert(end_checked(GameWorld { npc_manager: m2, ..g0 }, *game_world, t2));
        assert(told(out@) == t1 + t2);
    }
    out
}


/// `after` is `before` hit (see [`hit`]); its health stays within 2^30
/// when health and most health were.
proof fn lemma_hit_small(before: Person, after: Person, damage: i32, descs: PersonDescriptions)
    requires
        hit(before, after, damage, descs),
        -0x4000_0000 <= before.hp <= 0x4000_0000,
        -0x4000_0000 <= before.max_hp <= 0x4000_0000,
        -0x10_0000 <= damage <= 0x10_0000,
    ensures
        -0x4000_0000 <= after.hp <= 0x4000_0000,
{
}

/// An attack that does not end the fight keeps its numbers small, the
/// proficiency bound growing by 2.
proof fn lemma_attack_small(
    g: GameWorld,
    g2: GameWorld,
    skill: Seq<char>,
    att: Seq<char>,
    def: Seq<char>,
    t: Seq<(OutputZone, Seq<char>)>,
    prof: int,
)
    requires
        attack_done(g, g2, skill, att, def, t),
        g.npc_manager.wf(),
        fight_small(g.npc_manager, prof),
        g.combat_state is InCombat,
        g2.combat_state is InCombat,
    ensures
        fight_small(g2.npc_manager, prof + 2),
        g2.npc_manager.wf(),
        g2 == (GameWorld { npc_manager: g2.npc_manager, ..g }),
{
    let m = g.npc_manager;
    crate::npc_manager::lemma_found_in_range(m, att);
    crate::npc_manager::lemma_found_in_range(m, def);
    assert forall|i: int| 0 <= i < m.people().len() implies {
        let p = (#[trigger] m.people()[i]).1;
        forall|k: int|
            0 <= k < p.combat_skills@.len() ==> -0x10_0000 <= (#[trigger] p.combat_skills@[k]).1.damage <= 0x10_0000
                && p.combat_skills@[k].1.proficiency <= prof + 2
    } by {}
    if m.found(att) is Some {
        let a = m.found(att)->0;
        let p = m.people()[a].1;
        if cooldown_of(p, skill) <= 0 {
            let damage = damage_of(p, skill);
            let (m1, m2, t1, t2) = choose|
                m1: NpcManager,
                m2: NpcManager,
                t1: Seq<(OutputZone, Seq<char>)>,
                t2: Seq<(OutputZone, Seq<char>)>,
            |
                #[trigger] attack_steps(g, m1, m2, t1, skill, att, def, damage) && #[trigger] end_checked(
                    GameWorld { npc_manager: m2, ..g },
                    g2,
                    t2,
                ) && t == t1 + t2;
            let ps = strs_view((g.combat_state->participants)@);
            assert(g2 == (GameWorld { npc_manager: m2, ..g }));
            if value_at_key(p.combat_skills@, skill) is Some {
                crate::person::lemma_key_position_range(p.combat_skills@, skill);
            }
            assert(-0x10_0000 <= damage <= 0x10_0000);
            // after the hit
            assert(fight_small(m1, prof)) by {
                if m.found(def) is Some {
                    let d = m.found(def)->0;
                    lemma_hit_small(m.people()[d].1, m1.people()[d].1, damage, g.person_descriptions);
                    assert forall|i: int| 0 <= i < m1.people().len() implies {
                        let q = (#[trigger] m1.people()[i]).1;
                        &&& -0x4000_0000 <= q.hp <= 0x4000_0000
                        &&& -0x4000_0000 <= q.max_hp <= 0x4000_0000
                        &&& -0x4000_0000 <= q.combat_exp <= 0x4000_0000
                        &&& forall|k: int|
                            0 <= k < q.combat_skills@.len() ==> -0x10_0000 <= (#[trigger] q.combat_skills@[k]).1.damage
                                <= 0x10_0000 && q.combat_skills@[k].1.proficiency <= prof
                    } by {
                        assert(m.people()[i] == m.people()[i]);
                    }
                }
            }
            crate::command_interact::lemma_found_stable(m, m1, att);
            assert(m1.found(att) == m.found(att)) by {
                if m.found(def) is Some {
                    assert forall|j: int| 0 <= j < m.people().len() implies (#[trigger] m1.people()[j]).0
                        == m.people()[j].0 && m1.people()[j].1.name == m.people()[j].1.name by {}
                }
                crate::command_interact::lemma_found_stable(m, m1, att);
            }
            // after the practice
            let q = m1.people()[a].1;
            assert forall|i: int| 0 <= i < m2.people().len() implies {
                let r = (#[trigger] m2.people()[i]).1;
                &&& -0x4000_0000 <= r.hp <= 0x4000_0000
                &&& -0x4000_0000 <= r.max_hp <= 0x4000_0000
                &&& -0x4000_0000 <= r.combat_exp <= 0x4000_0000
                &&& forall|k: int|
                    0 <= k < r.combat_skills@.len() ==> -0x10_0000 <= (#[trigger] r.combat_skills@[k]).1.damage
                        <= 0x10_0000 && r.combat_skills@[k].1.proficiency <= prof + 2
            } by {
                assert(m1.people()[i] == m1.people()[i]);
                if i == a {
                    if key_position(q.combat_skills@, skill) is Some {
                        crate::person::lemma_key_position_range(q.combat_skills@, skill);
                        let x = key_position(q.combat_skills@, skill)->0;
                        let r = m2.people()[i].1;
                        assert forall|k: int| 0 <= k < r.combat_skills@.len() implies -0x10_0000
                            <= (#[trigger] r.combat_skills@[k]).1.damage <= 0x10_0000
                            && r.combat_skills@[k].1.proficiency <= prof + 2 by {
                            assert(q.combat_skills@[k] == q.combat_skills@[k]);
                        }
                    }
                }
            }
        }
    }
}

/// A move a person who fights on draws: punch or kick.
pub open spec fn npc_move(k: usize) -> Seq<char> {
    if k == 0 {
        "punch"@
    } else {
        "kick"@
    }
}

/// `after` is `before` with each fighter's moves cooled once for each of
/// `ps` that leads to them.
pub open spec fn cooled_all(before: NpcManager, after: NpcManager, ps: Seq<Seq<char>>) -> bool {
    &&& after.wf()
    &&& after.alias_list() == before.alias_list()
    &&& after.distance_list() == before.distance_list()
    &&& after.people().len() == before.people().len()
    &&& forall|j: int|
        0 <= j < before.people().len() ==> {
            let p = before.people()[j].1;
            let q = (#[trigger] after.people()[j]).1;
            let n = hits(before, ps, j);
            &&& after.people()[j].0 == before.people()[j].0
            &&& q == (Person { combat_skills: q.combat_skills, ..p })
            &&& q.combat_skills@.len() == p.combat_skills@.len()
            &&& forall|k: int|
                0 <= k < p.combat_skills@.len() ==> (#[trigger] q.combat_skills@[k]).0 == p.combat_skills@[k].0
                    && q.combat_skills@[k].1 == (CombatSkill {
                    current_cooldown: if p.combat_skills@[k].1.current_cooldown <= 0 {
                        p.combat_skills@[k].1.current_cooldown
                    } else if p.combat_skills@[k].1.current_cooldown >= n {
                        (p.combat_skills@[k].1.current_cooldown - n) as i32
                    } else {
                        0i32
                    },
                    ..p.combat_skills@[k].1
                })
        }
}

/// Cools everyone's moves once for each of `parts` that leads to them.
fn cool_all(m: &mut NpcManager, parts: &Vec<String>)
    requires
        old(m).wf(),
    ensures
        cooled_all(*old(m), *final(m), strs_view(parts@)),
{
    let ghost m0 = *m;
    let ghost pv = strs_view(parts@);
    let mut k: usize = 0;
    proof {
        assert(pv.take(0) =~= Seq::<Seq<char>>::empty());
        assert forall|j: int| 0 <= j < m0.people().len() implies {
            let p = m0.people()[j].1;
            let q = (#[trigger] m.people()[j]).1;
            forall|x: int|
                0 <= x < p.combat_skills@.len() ==> (#[trigger] q.combat_skills@[x]).0 == p.combat_skills@[x].0
                    && q.combat_skills@[x].1 == (CombatSkill {
                    current_cooldown: if p.combat_skills@[x].1.current_cooldown <= 0 {
                        p.combat_skills@[x].1.current_cooldown
                    } else if p.combat_skills@[x].1.current_cooldown >= hits(m0, pv.take(0), j) {
                        (p.combat_skills@[x].1.current_cooldown - hits(m0, pv.take(0), j)) as i32
                    } else {
                        0i32
                    },
                    ..p.combat_skills@[x].1
                })
        } by {}
    }
    while k < parts.len()
        invariant
            k <= parts@.len(),
            pv == strs_view(parts@),
            m0 == *old(m),
            m0.wf(),
            cooled_all(m0, *m, pv.take(k as int)),
        decreases parts@.len() - k,
    {
        let ghost cur = *m;
        proof {
            assert(pv[k as int] == parts@[k as int]@);
            lemma_same_found(m0, cur, pv[k as int]);
            crate::npc_manager::lemma_found_in_range(m0, pv[k as int]);
            assert(pv.take(k + 1).drop_last() =~= pv.take(k as int));
            assert(pv.take(k + 1).last() == pv[k as int]);
        }
        match m.get_npc_mut(parts[k].as_str()) {
            Some(p) => {
                p.reduce_skill_cooldowns();
            },
            None => {},
        }
        k = k + 1;
    }
    proof {
        assert(pv.take(k as int) =~= pv);
    }
}


/// A bound on proficiency holds of every wider bound.
proof fn lemma_fight_small_wider(m: NpcManager, a: int, b: int)
    requires
        fight_small(m, a),
        a <= b,
    ensures
        fight_small(m, b),
{
    assert forall|i: int| 0 <= i < m.people().len() implies {
        let p = (#[trigger] m.people()[i]).1;
        forall|k: int|
            0 <= k < p.combat_skills@.len() ==> (#[trigger] p.combat_skills@[k]).1.proficiency <= b
    } by {}
}

/// One more turn taken, the `k`th fighter's, extends a run of turns.
proof fn lemma_turn_added(
    g0: GameWorld,
    ps: Seq<Seq<char>>,
    states: Seq<GameWorld>,
    parts: Seq<Seq<(OutputZone, Seq<char>)>>,
    k: int,
    next: GameWorld,
    part: Seq<(OutputZone, Seq<char>)>,
    c: usize,
)
    requires
        turns_taken(g0, ps, states, parts, k),
        k < ps.len(),
        states[k].combat_state is InCombat,
        (next == states[k] && part.len() == 0) || (ps[k] != "me"@ && c < 2 && attack_done(
            states[k],
            next,
            npc_move(c),
            ps[k],
            "me"@,
            part,
        )),
    ensures
        turns_taken(g0, ps, states.push(next), parts.push(part), k + 1),
{
    let s2 = states.push(next);
    let p2 = parts.push(part);
    assert forall|q: int| 0 <= q < k + 1 implies {
        &&& (#[trigger] s2[q]).combat_state is InCombat
        &&& if ps[q] == "me"@ {
            s2[q + 1] == s2[q] && p2[q].len() == 0
        } else {
            ||| s2[q + 1] == s2[q] && p2[q].len() == 0
            ||| exists|c: usize| c < 2 && #[trigger] attack_done(s2[q], s2[q + 1], npc_move(c), ps[q], "me"@, p2[q])
        }
    } by {
        if q < k {
            assert(s2[q] == states[q] && s2[q + 1] == states[q + 1] && p2[q] == parts[q]);
        } else {
            assert(s2[q] == states[k] && s2[q + 1] == next && p2[q] == part);
            if !(next == states[k] && part.len() == 0) {
                assert(attack_done(s2[q], s2[q + 1], npc_move(c), ps[q], "me"@, p2[q]));
            }
        }
    }
}

/// `states` and `parts` show the first `n` fighters of `ps` taking their
/// turns from `g0` on: the player's turn is skipped; each other either
/// waits or attacks the player with punch or kick (see [`attack_done`]),
/// the fight going on before each turn.
pub open spec fn turns_taken(
    g0: GameWorld,
    ps: Seq<Seq<char>>,
    states: Seq<GameWorld>,
    parts: Seq<Seq<(OutputZone, Seq<char>)>>,
    n: int,
) -> bool {
    &&& 0 <= n <= ps.len()
    &&& states.len() == n + 1
    &&& parts.len() == n
    &&& states[0] == g0
    &&& forall|k: int|
        0 <= k < n ==> {
            &&& (#[trigger] states[k]).combat_state is InCombat
            &&& if ps[k] == "me"@ {
                states[k + 1] == states[k] && parts[k].len() == 0
            } else {
                ||| states[k + 1] == states[k] && parts[k].len() == 0
                ||| exists|c: usize| c < 2 && #[trigger] attack_done(states[k], states[k + 1], npc_move(c), ps[k], "me"@, parts[k])
            }
        }
}

/// `after`, `ran` and `t` follow from `before` by one round of the fight
/// (see [`execute_combat_round`]).
pub open spec fn round_played(before: GameWorld, after: GameWorld, ran: bool, t: Seq<(OutputZone, Seq<char>)>) -> bool {
    match before.combat_state {
        CombatState::NotInCombat => !ran && t.len() == 0 && after == before,
        CombatState::InCombat { participants, round } => {
            let ps = strs_view(participants@);
            &&& ran
            &&& exists|states: Seq<GameWorld>, parts: Seq<Seq<(OutputZone, Seq<char>)>>, n: int|
                #[trigger] turns_taken(before, ps, states, parts, n) && t == flat(parts) && (
                (states[n].combat_state is NotInCombat && after == states[n]) || (n == ps.len()
                    && states[n].combat_state is InCombat && cooled_all(
                    states[n].npc_manager,
                    after.npc_manager,
                    ps,
                ) && after == (GameWorld {
                    npc_manager: after.npc_manager,
                    combat_state: CombatState::InCombat { participants, round: (round + 1) as i32 },
                    ..states[n]
                })))
        },
    }
}

/// A round either ends the fight or moves it on to the next round, with
/// the same fighters; outside a fight it changes nothing.
pub proof fn law_round_ends_or_advances(before: GameWorld, after: GameWorld, ran: bool, t: Seq<(OutputZone, Seq<char>)>)
    requires
        round_played(before, after, ran, t),
    ensures
        match before.combat_state {
            CombatState::InCombat { participants, round } => ran && (after.combat_state is NotInCombat
                || after.combat_state == (CombatState::InCombat { participants, round: (round + 1) as i32 })),
            CombatState::NotInCombat => !ran && after == before && t.len() == 0,
        },
{
}

/// One round of the fight (see [`turns_taken`]): when it ends the fight
/// the round stops there; otherwise the round count goes up by one and
/// everyone's moves cool (see [`cooled_all`]). The answer says whether a
/// fight was under way.
pub fn execute_combat_round(game_world: &mut GameWorld) -> (r: (bool, Vec<(OutputZone, String)>))
    requires
        old(game_world).npc_manager.wf(),
        old(game_world).combat_state is InCombat ==> fight_small(old(game_world).npc_manager, 0x4000_0000),
        fight_state_small(old(game_world).combat_state),
    ensures
        final(game_world).npc_manager.wf(),
        round_played(*old(game_world), *final(game_world), r.0, told(r.1@)),
{
    let ghost g0 = *game_world;
    let mut out: Vec<(OutputZone, String)> = Vec::new();
    let participants = match &game_world.combat_state {
        CombatState::InCombat { participants, .. } => participants.clone(),
        CombatState::NotInCombat => {
            return (false, out);
        },
    };
    proof {
        assert(participants@ =~= (game_world.combat_state->participants)@);
        reveal_strlit("me");
        reveal_strlit("punch");
        reveal_strlit("kick");
    }
    let ghost ps = strs_view(participants@);
    let ghost mut states: Seq<GameWorld> = seq![g0];
    let ghost mut parts: Seq<Seq<(OutputZone, Seq<char>)>> = Seq::empty();
    let mut k: usize = 0;
    while k < participants.len()
        invariant
            k <= participants@.len(),
            ps == strs_view(participants@),
            participants@ == (g0.combat_state->participants)@,
            g0 == *old(game_world),
            g0.combat_state is InCombat,
            fight_state_small(g0.combat_state),
            game_world.npc_manager.wf(),
            game_world.combat_state == g0.combat_state,
            *game_world == (GameWorld { npc_manager: game_world.npc_manager, ..g0 }),
            fight_small(game_world.npc_manager, 0x4000_0000 + 2 * k),
            turns_taken(g0, ps, states, parts, k as int),
            states[k as int] == *game_world,
            told(out@) == flat(parts),
        decreases participants@.len() - k,
    {
        let ghost gk = *game_world;
        let ghost old_parts = parts;
        let ghost mut attacked = false;
        let ghost mut chosen: usize = 0;
        proof {
            assert(ps[k as int] == participants@[k as int]@);
            lemma_fight_small_wider(gk.npc_manager, 0x4000_0000 + 2 * k, 0x4000_0000 + 2 * k + 2);
        }
        if !str_eq(participants[k].as_str(), "me") {
            let act = random_ratio(1, 2);
            let c = random_below(2);
            let skill = if c == 0 {
                "punch"
            } else {
                "kick"
            };
            if act {
                proof {
                    lemma_fight_small_wider(gk.npc_manager, 0x4000_0000 + 2 * k, 0x4100_0000);
                }
                let mut t = execute_attack(game_world, skill, participants[k].as_str(), "me");
                let ghost tv = told(t@);
                let ghost before = out@;
                out.append(&mut t);
                proof {
                    assert(told(out@) =~= told(before) + tv);
                    assert(skill@ == npc_move(c));
                    assert(attack_done(gk, *game_world, npc_move(c), ps[k as int], "me"@, tv));
                    attacked = true;
                    chosen = c;
                    parts = parts.push(tv);
                    assert(parts.drop_last() =~= old_parts);
                }
            } else {
                proof {
                    parts = parts.push(Seq::empty());
                    assert(parts.drop_last() =~= old_parts);
                    assert(flat(parts) =~= flat(old_parts));
                }
            }
        } else {
            proof {
                parts = parts.push(Seq::empty());
                assert(parts.drop_last() =~= old_parts);
                assert(flat(parts) =~= flat(old_parts));
            }
        }
        proof {
            let ghost next = *game_world;
            if attacked {
                lemma_turn_added(g0, ps, states, old_parts, k as int, next, parts.last(), chosen);
            } else {
                lemma_turn_added(g0, ps, states, old_parts, k as int, next, parts.last(), 0);
            }
            assert(old_parts.push(parts.last()) =~= parts);
            states = states.push(next);
        }
        if game_world.combat_state.is_not_in_combat() {
            proof {
                assert(turns_taken(g0, ps, states, parts, k + 1));
            }
            return (true, out);
        }
        proof {
            if !(ps[k as int] == "me"@) && !(states[k + 1] == states[k as int]) {
                let c = choose|c: usize| c < 2 && #[trigger] attack_done(states[k as int], states[k + 1], npc_move(c), ps[k as int], "me"@, parts[k as int]);
                lemma_attack_small(gk, *game_world, npc_move(c), ps[k as int], "me"@, parts[k as int], 0x4000_0000 + 2 * k);
            }
        }
        k = k + 1;
    }
    match &mut game_world.combat_state {
        CombatState::InCombat { round, .. } => {
            *round = *round + 1;
        },
        CombatState::NotInCombat => {},
    }
    cool_all(&mut game_world.npc_manager, &participants);
    proof {
        assert(turns_taken(g0, ps, states, parts, k as int));
    }
    (true, out)
}


/// What is wrong with attacking `target` (the lines that say so), or
/// `None` when the attack may go ahead: the target must exist, be fit to
/// fight unless a fight is under way, and stand on the player's map at
/// most a step from the player.
pub open spec fn target_problem(g: GameWorld, target: Seq<char>, in_combat: bool) -> Option<
    Seq<(OutputZone, Seq<char>)>,
> {
    let m = g.npc_manager;
    match m.found(target) {
        None => Some(seq![(OutputZone::Main, "找不到 "@ + target)]),
        Some(j) => {
            let t = m.people()[j].1;
            if !in_combat && !(t.hp >= div_toward_zero(t.max_hp as int, 2)) {
                Some(seq![(OutputZone::Main, t.name@ + " 沒力氣跟你打"@)])
            } else {
                match m.found("me"@) {
                    None => Some(Seq::empty()),
                    Some(a) => {
                        let me = m.people()[a].1;
                        if t.map@ != g.current_map_name@ || abs_diff(t.x as int, me.x as int) + abs_diff(
                            t.y as int,
                            me.y as int,
                        ) > 1 {
                            Some(seq![(OutputZone::Main, t.name@ + " 距離太遠"@)])
                        } else {
                            None
                        }
                    },
                }
            }
        },
    }
}

/// Whether `target_name` may be attacked now (see [`target_problem`]),
/// with the lines that say why not.
fn check_target_valid(game_world: &GameWorld, target_name: &str, in_combat: bool) -> (r: (bool, Vec<(OutputZone, String)>))
    requires
        game_world.npc_manager.wf(),
        positions_small(game_world.npc_manager),
    ensures
        match target_problem(*game_world, target_name@, in_combat) {
            None => r.0 && r.1@.len() == 0,
            Some(lines) => !r.0 && told(r.1@) == lines,
        },
{
    let ghost m = game_world.npc_manager;
    let mut out: Vec<(OutputZone, String)> = Vec::new();
    proof {
        reveal_strlit("me");
        reveal_strlit(" 沒力氣跟你打");
        reveal_strlit(" 距離太遠");
        crate::npc_manager::lemma_found_in_range(m, target_name@);
        crate::npc_manager::lemma_found_in_range(m, "me"@);
    }
    let target = match game_world.npc_manager.get_npc(target_name) {
        Some(t) => t,
        None => {
            tell(&mut out, OutputZone::Main, crate::text::concat("找不到 ", target_name));
            proof {
                assert(told(out@) =~= seq![(OutputZone::Main, "找不到 "@ + target_name@)]);
            }
            return (false, out);
        },
    };
    if !target.can_start_combat() && !in_combat {
        let mut line = target.name.clone();
        line.append(" 沒力氣跟你打");
        tell(&mut out, OutputZone::Main, line);
        proof {
            assert(told(out@) =~= seq![(OutputZone::Main, target.name@ + " 沒力氣跟你打"@)]);
        }
        return (false, out);
    }
    let me = match game_world.npc_manager.get_npc("me") {
        Some(p) => p,
        None => {
            proof {
                assert(told(out@) =~= Seq::<(OutputZone, Seq<char>)>::empty());
            }
            return (false, out);
        },
    };
    if !str_eq(target.map.as_str(), game_world.current_map_name.as_str()) || manhattan_distance(
        target.x,
        target.y,
        me.x,
        me.y,
    ) > 1 {
        let mut line = target.name.clone();
        line.append(" 距離太遠");
        tell(&mut out, OutputZone::Main, line);
        proof {
            assert(told(out@) =~= seq![(OutputZone::Main, target.name@ + " 距離太遠"@)]);
        }
        return (false, out);
    }
    (true, out)
}

/// `g1` is `before` with a new fight between the player and `target`, in
/// its first round.
pub open spec fn fight_opened(before: GameWorld, g1: GameWorld, target: Seq<char>) -> bool {
    &&& g1.combat_state matches CombatState::InCombat { participants, round } && round == 1 && strs_view(
        participants@,
    ) == seq!["me"@, target]
    &&& g1 == (GameWorld { combat_state: g1.combat_state, ..before })
}

/// The stages of the player's attack on `target`: the fight opened
/// unless one was under way (`g1`), the player's blow (`g2`, `t1`), then
/// a round of the fight (`after`, `t2`).
pub open spec fn fight_steps(
    before: GameWorld,
    g1: GameWorld,
    g2: GameWorld,
    after: GameWorld,
    ran: bool,
    t1: Seq<(OutputZone, Seq<char>)>,
    t2: Seq<(OutputZone, Seq<char>)>,
    skill: Seq<char>,
    target: Seq<char>,
    in_combat: bool,
) -> bool {
    &&& if in_combat {
        g1 == before
    } else {
        fight_opened(before, g1, target)
    }
    &&& attack_done(g1, g2, skill, "me"@, target, t1)
    &&& round_played(g2, after, ran, t2)
}

/// The player attacks `target` with `skill`: without the player nothing
/// happens; a player too worn to start a fight, or a target that may not
/// be attacked (see [`target_problem`]), is told so; otherwise the fight
/// opens (unless under way), the player strikes and a round is played.
pub open spec fn combat_fought(
    before: GameWorld,
    after: GameWorld,
    skill: Seq<char>,
    target: Seq<char>,
    in_combat: bool,
    t: Seq<(OutputZone, Seq<char>)>,
) -> bool {
    let m = before.npc_manager;
    match m.found("me"@) {
        None => after == before && t.len() == 0,
        Some(a) => {
            let me = m.people()[a].1;
            if !in_combat && !(me.hp >= div_toward_zero(me.max_hp as int, 2)) {
                after == before && t == seq![(OutputZone::Main, "你沒力氣戰鬥"@)]
            } else {
                match target_problem(before, target, in_combat) {
                    Some(lines) => after == before && t == lines,
                    None => exists|
                        g1: GameWorld,
                        g2: GameWorld,
                        ran: bool,
                        t1: Seq<(OutputZone, Seq<char>)>,
                        t2: Seq<(OutputZone, Seq<char>)>,
                    |
                        #[trigger] fight_steps(before, g1, g2, after, ran, t1, t2, skill, target, in_combat) && t == (
                        if in_combat {
                            Seq::empty()
                        } else {
                            seq![(OutputZone::Main, "⚔️  戰鬥開始！你 vs "@ + target)]
                        }) + t1 + t2,
                }
            }
        },
    }
}

/// The player attacks `target_name` with `skill_name` (see
/// [`combat_fought`]); `in_combat` says whether a fight is under way.
fn execute_combat(game_world: &mut GameWorld, skill_name: &str, target_name: &str, in_combat: bool) -> (r: Vec<
    (OutputZone, String),
>)
    requires
        old(game_world).npc_manager.wf(),
        positions_small(old(game_world).npc_manager),
        fight_small(old(game_world).npc_manager, 0x3fff_fffe),
        fight_state_small(old(game_world).combat_state),
        in_combat == old(game_world).combat_state is InCombat,
    ensures
        final(game_world).npc_manager.wf(),
        combat_fought(*old(game_world), *final(game_world), skill_name@, target_name@, in_combat, told(r@)),
{
    let ghost g0 = *game_world;
    let ghost m = game_world.npc_manager;
    let mut out: Vec<(OutputZone, String)> = Vec::new();
    proof {
        reveal_strlit("me");
        crate::npc_manager::lemma_found_in_range(m, "me"@);
    }
    match game_world.npc_manager.get_npc("me") {
        None => {
            proof {
                assert(told(out@) =~= Seq::<(OutputZone, Seq<char>)>::empty());
            }
            return out;
        },
        Some(me) => {
            if !me.can_start_combat() && !in_combat {
                tell(&mut out, OutputZone::Main, String::from_str("你沒力氣戰鬥"));
                proof {
                    assert(told(out@) =~= seq![(OutputZone::Main, "你沒力氣戰鬥"@)]);
                }
                return out;
            }
        },
    }
    let (ok, lines) = check_target_valid(game_world, target_name, in_combat);
    if !ok {
        return lines;
    }
    if !in_combat {
        game_world.combat_state = CombatState::InCombat {
            participants: vec![String::from_str("me"), String::from_str(target_name)],
            round: 1,
        };
        tell(&mut out, OutputZone::Main, crate::text::concat("⚔️  戰鬥開始！你 vs ", target_name));
        proof {
            assert(strs_view((game_world.combat_state->participants)@) =~= seq!["me"@, target_name@]);
        }
    }
    let ghost g1 = *game_world;
    let ghost t0 = told(out@);
    proof {
        lemma_fight_small_wider(m, 0x3fff_fffe, 0x4100_0000);
    }
    let mut t1 = execute_attack(game_world, skill_name, "me", target_name);
    let ghost g2 = *game_world;
    let ghost v1 = told(t1@);
    proof {
        if g2.combat_state is InCombat {
            lemma_attack_small(g1, g2, skill_name@, "me"@, target_name@, v1, 0x3fff_fffe);
        }
    }
    let (ran, mut t2) = execute_combat_round(game_world);
    let ghost v2 = told(t2@);
    let ghost o0 = out@;
    out.append(&mut t1);
    let ghost o1 = out@;
    out.append(&mut t2);
    proof {
        assert(told(o1) =~= told(o0) + v1);
        assert(told(out@) =~= told(o1) + v2);
        assert(fight_steps(g0, g1, g2, *game_world, ran, v1, v2, skill_name@, target_name@, in_combat));
        if in_combat {
            assert(t0 =~= Seq::<(OutputZone, Seq<char>)>::empty());
        } else {
            assert(t0 =~= seq![(OutputZone::Main, "⚔️  戰鬥開始！你 vs "@ + target_name@)]);
        }
    }
    out
}

/// Practising `skill` with no one to fight (see
/// [`Person::practice_skill`]): the controlled person practises it out of
/// a fight; a move they do not know is told unknown.
pub open spec fn practised_alone(before: GameWorld, after: GameWorld, skill: Seq<char>, t: Seq<(OutputZone, Seq<char>)>) -> bool {
    let m = before.npc_manager;
    let a = after.npc_manager;
    &&& after == (GameWorld { npc_manager: a, ..before })
    &&& a.wf()
    &&& a.alias_list() == m.alias_list()
    &&& a.distance_list() == m.distance_list()
    &&& match m.found(before.current_controlled_id@) {
        None => a.people() == m.people() && t.len() == 0,
        Some(i) => {
            let p = m.people()[i].1;
            match key_position(p.combat_skills@, skill) {
                None => a.people() == m.people() && t == seq![(OutputZone::Main, "未知技能: "@ + skill)],
                Some(k) => {
                    let sk = p.combat_skills@[k].1;
                    if sk.current_cooldown > 0 {
                        a.people() == m.people() && t == seq![(OutputZone::Main, "你還沒準備好"@ + skill)]
                    } else {
                        &&& t == seq![(OutputZone::Main, "你練習了 "@ + skill + " (熟練度 +"@ + signed_decimal(1) + ")"@)]
                        &&& a.people() == m.people().update(
                            i,
                            (
                                m.people()[i].0,
                                Person {
                                    combat_skills: a.people()[i].1.combat_skills,
                                    ..p
                                },
                            ),
                        )
                        &&& a.people()[i].1.combat_skills@ == p.combat_skills@.update(
                            k,
                            (
                                p.combat_skills@[k].0,
                                CombatSkill { proficiency: (sk.proficiency + 1) as i32, current_cooldown: sk.cooldown, ..sk },
                            ),
                        )
                    }
                },
            }
        },
    }
}

/// The player's first foe among `ps` is at `i`: everyone before it is the
/// player.
pub open spec fn first_foe(ps: Seq<Seq<char>>, i: int) -> bool {
    &&& 0 <= i < ps.len()
    &&& ps[i] != "me"@
    &&& forall|j: int| 0 <= j < i ==> ps[j] == "me"@
}

/// The first of `participants` that is not the player.
fn find_foe(participants: &Vec<String>) -> (r: Option<usize>)
    ensures
        match r {
            Some(i) => first_foe(strs_view(participants@), i as int),
            None => forall|j: int| 0 <= j < participants@.len() ==> strs_view(participants@)[j] == "me"@,
        },
{
    let ghost ps = strs_view(participants@);
    let mut i: usize = 0;
    while i < participants.len()
        invariant
            i <= participants@.len(),
            ps == strs_view(participants@),
            forall|j: int| 0 <= j < i ==> ps[j] == "me"@,
        decreases participants@.len() - i,
    {
        proof {
            assert(ps[i as int] == participants@[i as int]@);
        }
        if !str_eq(participants[i].as_str(), "me") {
            return Some(i);
        }
        i = i + 1;
    }
    None
}

/// What `handle_combat_skill` leaves behind and answers.
pub open spec fn handle_combat_skill_done(old_world: GameWorld, new_world: GameWorld, skill_name: Seq<char>, target: Option<String>, r: Seq<(OutputZone, String)>) -> bool {
    &&& new_world.npc_manager.wf()
    &&& match old_world.combat_state {
        CombatState::InCombat { participants, .. } => match target {
            Some(t) => combat_fought(old_world, new_world, skill_name, t@, true, told(r)),
            None => {
                let ps = strs_view(participants@);
                &&& (forall|j: int| 0 <= j < ps.len() ==> ps[j] == "me"@) ==> new_world == old_world
                    && told(r) == seq![(OutputZone::Main, "戰鬥中沒有可攻擊的目標"@)]
                &&& forall|i: int|
                    #[trigger] first_foe(ps, i) ==> combat_fought(
                        old_world,
                        new_world,
                        skill_name,
                        ps[i],
                        true,
                        told(r),
                    )
            },
        },
        CombatState::NotInCombat => match target {
            Some(t) => combat_fought(old_world, new_world, skill_name, t@, false, told(r)),
            None => practised_alone(old_world, new_world, skill_name, told(r)),
        },
    }
}

/// When `handle_combat_skill` may be called.
pub open spec fn handle_combat_skill_ready(old_world: GameWorld, skill_name: Seq<char>, target: Option<String>) -> bool {
    &&& old_world.npc_manager.wf()
    &&& positions_small(old_world.npc_manager)
    &&& fight_small(old_world.npc_manager, 0x3fff_fffe)
    &&& fight_state_small(old_world.combat_state)
}

/// The move `skill_name` (punch or kick), at `target` or else at the
/// first foe of the fight under way; with neither, it is practised (see
/// [`practised_alone`]). A fight with no foe says so.
pub fn handle_combat_skill(game_world: &mut GameWorld, skill_name: &str, target: Option<String>) -> (r: Vec<
    (OutputZone, String),
>)
    requires
        old(game_world).npc_manager.wf(),
        positions_small(old(game_world).npc_manager),
        fight_small(old(game_world).npc_manager, 0x3fff_fffe),
        fight_state_small(old(game_world).combat_state),
    ensures
        handle_combat_skill_done(*old(game_world), *final(game_world), skill_name@, target, r@),
{
    let ghost g0 = *game_world;
    let in_combat = !game_world.combat_state.is_not_in_combat();
    let target_name = match target {
        Some(t) => t,
        None => {
            if in_combat {
                let found = match &game_world.combat_state {
                    CombatState::InCombat { participants, .. } => match find_foe(participants) {
                        Some(i) => Some(participants[i].clone()),
                        None => None,
                    },
                    CombatState::NotInCombat => None,
                };
                match found {
                    Some(t) => {
                        proof {
                            let ps = strs_view((g0.combat_state->participants)@);
                            assert forall|i: int| #[trigger] first_foe(ps, i) implies ps[i] == t@ by {
                                let k = choose|k: int| first_foe(ps, k) && ps[k] == t@;
                                if i < k {
                                    assert(ps[i] == "me"@);
                                } else if k < i {
                                    assert(ps[k] == "me"@);
                                }
                            }
                        }
                        t
                    },
                    None => {
                        let mut out: Vec<(OutputZone, String)> = Vec::new();
                        tell(&mut out, OutputZone::Main, String::from_str("戰鬥中沒有可攻擊的目標"));
                        proof {
                            assert(told(out@) =~= seq![(OutputZone::Main, "戰鬥中沒有可攻擊的目標"@)]);
                        }
                        return out;
                    },
                }
            } else {
                return enter_practice_mode(game_world, skill_name);
            }
        },
    };
    execute_combat(game_world, skill_name, target_name.as_str(), in_combat)
}

/// Practising `skill_name` with no one to fight (see [`practised_alone`]).
fn enter_practice_mode(game_world: &mut GameWorld, skill_name: &str) -> (r: Vec<(OutputZone, String)>)
    requires
        old(game_world).npc_manager.wf(),
        fight_small(old(game_world).npc_manager, 0x4000_0000),
    ensures
        practised_alone(*old(game_world), *final(game_world), skill_name@, told(r@)),
{
    let ghost m = game_world.npc_manager;
    let mut out: Vec<(OutputZone, String)> = Vec::new();
    let id = game_world.current_controlled_id.clone();
    proof {
        crate::npc_manager::lemma_found_in_range(m, id@);
    }
    match game_world.npc_manager.get_npc_mut(id.as_str()) {
        None => {
            proof {
                assert(told(out@) =~= Seq::<(OutputZone, Seq<char>)>::empty());
            }
        },
        Some(me) => {
            proof {
                crate::person::lemma_key_position_range(me.combat_skills@, skill_name@);
            }
            match me.practice_skill(skill_name, false) {
                Some(msg) => {
                    tell(&mut out, OutputZone::Main, msg);
                },
                None => {
                    tell(&mut out, OutputZone::Main, crate::text::concat("未知技能: ", skill_name));
                },
            }
        },
    }
    proof {
        if let Some(i) = m.found(id@) {
            let p = m.people()[i].1;
            if key_position(p.combat_skills@, skill_name@) is None || p.combat_skills@[key_position(
                p.combat_skills@,
                skill_name@,
            )->0].1.current_cooldown > 0 {
                assert(game_world.npc_manager.people()[i] == m.people()[i]);
                assert(game_world.npc_manager.people() =~= m.people());
            }
        }
        assert(told(out@).len() <= 1);
        if told(out@).len() == 1 {
            assert(told(out@) =~= seq![told(out@)[0]]);
        } else {
            assert(told(out@) =~= Seq::<(OutputZone, Seq<char>)>::empty());
        }
    }
    out
}

} // verus!
