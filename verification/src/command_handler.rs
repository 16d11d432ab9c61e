//! Parsing of text commands into [`CommandResult`] values, shared by the
//! terminal front end and the library mode.
use vstd::prelude::*;
use crate::help::{desc_view, group_help, help_groups, help_matches};
use vstd::pervasive::arbitrary;
use crate::text::{
    concat, join, join_from, parse_i32, parse_i32_spec, parse_u32, parse_u32_spec, split_words,
    str_eq, strs_view, words,
};

verus! {

/// The outcome of parsing one command line: every kind of game command.
#[derive(Clone, Debug)]
pub enum CommandResult {
    Output(String),
    Error(String),
    Exit,
    Clear,
    AddToSide(String),
    ShowWorld,
    ShowMinimap,
    HideMinimap,
    ShowLog,
    HideLog,
    ShowMap,
    ShowHistory(usize),
    Look(Option<String>),
    Move(i32, i32),
    Get(Option<String>, u32),
    Drop(String, u32),
    Eat(String),
    UseItem(String),
    UseItemOn(String, String),
    Sleep,
    Dream(Option<String>),
    WakeUp,
    Summon(String),
    Conquer(String),
    FlyTo(String),
    NameHere(String),
    Name(String, String),
    Destroy(String),
    Create(String, String, Option<String>),
    SetAttribute(String, String, i32),
    SwitchControl(String),
    Trade(String),
    Buy(String, String, u32),
    Sell(String, String, u32),
    Give(String, String, u32),
    SetDialogue(String, String, String),
    SetDialogueWithConditions(String, String, String, String),
    SetEagerness(String, u8),
    SetRelationship(String, i32),
    ChangeRelationship(String, i32),
    Talk(String, String),
    Wait(String),
    Party(String),
    Disband,
    Punch(Option<String>),
    Kick(Option<String>),
    Escape,
    ListNpcs,
    CheckNpc(String),
    ToggleTypewriter,
    QuestList,
    QuestActive,
    QuestAvailable,
    QuestCompleted,
    QuestInfo(String),
    QuestStart(String),
    QuestComplete(String),
    QuestAbandon(String),
    Help,
}

/// The help entry of a command: its syntax, what it does and its category.
pub open spec fn description_of(c: CommandResult) -> Option<(Seq<char>, Seq<char>, Seq<char>)> {
    match c {
        CommandResult::Exit => Some(("exit / quit"@, "退出遊戲"@, "🎮 遊戲控制"@)),
        CommandResult::Help => Some(("help"@, "顯示此幫助訊息"@, "🎮 遊戲控制"@)),
        CommandResult::Clear => Some(("clear"@, "清除訊息輸出"@, "🛠️  其他"@)),
        CommandResult::ShowHistory(..) => Some(
            ("history / hist [<數量>]"@, "顯示指令歷史記錄"@, "ℹ️  資訊查詢"@),
        ),
        CommandResult::Look(..) => Some(("look / l [<npc>]"@, "查看位置或NPC"@, "🎮 遊戲控制"@)),
        CommandResult::Move(..) => Some(
            ("↑↓←→ / up/down/left/right (u/d/r)"@, "移動角色"@, "🎮 遊戲控制"@),
        ),
        CommandResult::Conquer(..) => Some(
            ("conq / conquer <方向>"@, "征服方向使其可行走"@, "🎮 遊戲控制"@),
        ),
        CommandResult::FlyTo(..) => Some(
            ("flyto / ft <目標>"@, "傳送到位置/地圖/地點"@, "🎮 遊戲控制"@),
        ),
        CommandResult::NameHere(..) => Some(("namehere <名稱>"@, "命名當前地點"@, "🎮 遊戲控制"@)),
        CommandResult::Name(..) => Some(("name <目標> <名稱>"@, "命名NPC或地點"@, "🎮 遊戲控制"@)),
        CommandResult::Get(..) => Some(("get [<物品>] [<數量>]"@, "撿起物品"@, "🎒 物品管理"@)),
        CommandResult::Drop(..) => Some(("drop <物品> <數量>"@, "放下物品"@, "🎒 物品管理"@)),
        CommandResult::Eat(..) => Some(("eat <食物>"@, "吃食物回復HP"@, "🎒 物品管理"@)),
        CommandResult::UseItem(..) => Some(
            ("use <物品>"@, "使用物品（藥水/食物等）"@, "🎒 物品管理"@),
        ),
        CommandResult::UseItemOn(..) => Some(
            ("use <物品> on <npc>"@, "對NPC使用物品（藥水/食物等）"@, "🎒 物品管理"@),
        ),
        CommandResult::Sleep => Some(("sleep"@, "進入睡眠狀態"@, "💤 睡眠"@)),
        CommandResult::Dream(..) => Some(("dream [<內容>]"@, "做夢（睡眠時）"@, "💤 睡眠"@)),
        CommandResult::WakeUp => Some(("wakeup / wake"@, "從睡眠中醒來"@, "💤 睡眠"@)),
        CommandResult::Summon(..) => Some(("summon / sn <npc>"@, "召喚NPC到此"@, "👥 NPC互動"@)),
        CommandResult::ShowWorld => Some(("show world"@, "顯示世界資訊"@, "ℹ️  資訊查詢"@)),
        CommandResult::ShowMinimap => Some(("show minimap"@, "顯示小地圖"@, "🗺️  介面控制"@)),
        CommandResult::HideMinimap => Some(("hide minimap"@, "隱藏小地圖"@, "🗺️  介面控制"@)),
        CommandResult::ShowLog => Some(("show log"@, "顯示系統日誌"@, "🗺️  介面控制"@)),
        CommandResult::HideLog => Some(("hide log"@, "隱藏系統日誌"@, "🗺️  介面控制"@)),
        CommandResult::ShowMap => Some(
            ("show map / sm"@, "顯示大地圖 (↑↓←→移動, q退出"@, "🗺️  介面控制"@),
        ),
        CommandResult::Destroy(..) => Some(("destroy / ds <目標>"@, "刪除NPC或物品"@, "🛠️  其他"@)),
        CommandResult::Create(..) => Some(
            ("create / cr <類型> <物件類型> [名稱]"@, "創建物件 (item/npc)"@, "🛠️  其他"@),
        ),
        CommandResult::SetAttribute(..) => Some(
            (
                "set <人物> <屬性> <數值> 或 set item <物品> <價格>"@,
                "設置角色屬性 (hp/mp/strength/knowledge/sociality/gold) 或物品價格"@,
                "🛠️  其他"@,
            ),
        ),
        CommandResult::SwitchControl(..) => Some(
            ("ctrl / control <npc>"@, "切換操控的角色"@, "👥 NPC互動"@),
        ),
        CommandResult::Trade(..) => Some(("trade <npc>"@, "查看NPC商品"@, "💰 交易"@)),
        CommandResult::Buy(..) => Some(("buy <npc> <item> [數量]"@, "購買物品"@, "💰 交易"@)),
        CommandResult::Sell(..) => Some(("sell <npc> <item> [數量]"@, "出售物品"@, "💰 交易"@)),
        CommandResult::Give(..) => Some(
            ("give <npc> <item> [數量]"@, "給予NPC物品"@, "👥 NPC互動"@),
        ),
        CommandResult::Wait(..) => Some(("wait <npc>"@, "叫住NPC（基於好感度）"@, "👥 NPC互動"@)),
        CommandResult::Party(..) => Some(("party <npc>"@, "邀請NPC組隊"@, "👥 NPC互動"@)),
        CommandResult::Disband => Some(("disband"@, "解散隊伍"@, "👥 NPC互動"@)),
        CommandResult::Punch(..) => Some(("punch / ph [目標]"@, "拳擊（無目標=練習）"@, "⚔️  戰鬥"@)),
        CommandResult::Kick(..) => Some(("kick / kk [目標]"@, "踢擊（無目標=練習）"@, "⚔️  戰鬥"@)),
        CommandResult::Escape => Some(("escape / esc"@, "逃離戰鬥"@, "⚔️  戰鬥"@)),
        CommandResult::ListNpcs => Some(("npcs"@, "列出所有NPC"@, "👥 NPC互動"@)),
        _ => None,
    }
}

/// The views of a help entry.
pub open spec fn entry_view(e: Option<(&'static str, &'static str, &'static str)>) -> Option<
    (Seq<char>, Seq<char>, Seq<char>),
> {
    match e {
        Some((a, b, c)) => Some((a@, b@, c@)),
        None => None,
    }
}

impl CommandResult {
    /// The help entry of this command: (syntax, description, category).
    pub fn description(&self) -> (r: Option<(&'static str, &'static str, &'static str)>)
        ensures
            entry_view(r) == description_of(*self),
    {
        match self {
            CommandResult::Exit => Some(("exit / quit", "退出遊戲", "🎮 遊戲控制")),
            CommandResult::Help => Some(("help", "顯示此幫助訊息", "🎮 遊戲控制")),
            CommandResult::Clear => Some(("clear", "清除訊息輸出", "🛠️  其他")),
            CommandResult::ShowHistory(..) => Some(
                ("history / hist [<數量>]", "顯示指令歷史記錄", "ℹ️  資訊查詢"),
            ),
            CommandResult::Look(..) => Some(("look / l [<npc>]", "查看位置或NPC", "🎮 遊戲控制")),
            CommandResult::Move(..) => Some(
                ("↑↓←→ / up/down/left/right (u/d/r)", "移動角色", "🎮 遊戲控制"),
            ),
            CommandResult::Conquer(..) => Some(
                ("conq / conquer <方向>", "征服方向使其可行走", "🎮 遊戲控制"),
            ),
            CommandResult::FlyTo(..) => Some(
                ("flyto / ft <目標>", "傳送到位置/地圖/地點", "🎮 遊戲控制"),
            ),
            CommandResult::NameHere(..) => Some(("namehere <名稱>", "命名當前地點", "🎮 遊戲控制")),
            CommandResult::Name(..) => Some(("name <目標> <名稱>", "命名NPC或地點", "🎮 遊戲控制")),
            CommandResult::Get(..) => Some(("get [<物品>] [<數量>]", "撿起物品", "🎒 物品管理")),
            CommandResult::Drop(..) => Some(("drop <物品> <數量>", "放下物品", "🎒 物品管理")),
            CommandResult::Eat(..) => Some(("eat <食物>", "吃食物回復HP", "🎒 物品管理")),
            CommandResult::UseItem(..) => Some(
                ("use <物品>", "使用物品（藥水/食物等）", "🎒 物品管理"),
            ),
            CommandResult::UseItemOn(..) => Some(
                ("use <物品> on <npc>", "對NPC使用物品（藥水/食物等）", "🎒 物品管理"),
            ),
            CommandResult::Sleep => Some(("sleep", "進入睡眠狀態", "💤 睡眠")),
            CommandResult::Dream(..) => Some(("dream [<內容>]", "做夢（睡眠時）", "💤 睡眠")),
            CommandResult::WakeUp => Some(("wakeup / wake", "從睡眠中醒來", "💤 睡眠")),
            CommandResult::Summon(..) => Some(("summon / sn <npc>", "召喚NPC到此", "👥 NPC互動")),
            CommandResult::ShowWorld => Some(("show world", "顯示世界資訊", "ℹ️  資訊查詢")),
            CommandResult::ShowMinimap => Some(("show minimap", "顯示小地圖", "🗺️  介面控制")),
            CommandResult::HideMinimap => Some(("hide minimap", "隱藏小地圖", "🗺️  介面控制")),
            CommandResult::ShowLog => Some(("show log", "顯示系統日誌", "🗺️  介面控制")),
            CommandResult::HideLog => Some(("hide log", "隱藏系統日誌", "🗺️  介面控制")),
            CommandResult::ShowMap => Some(
                ("show map / sm", "顯示大地圖 (↑↓←→移動, q退出", "🗺️  介面控制"),
            ),
            CommandResult::Destroy(..) => Some(("destroy / ds <目標>", "刪除NPC或物品", "🛠️  其他")),
            CommandResult::Create(..) => Some(
                ("create / cr <類型> <物件類型> [名稱]", "創建物件 (item/npc)", "🛠️  其他"),
            ),
            CommandResult::SetAttribute(..) => Some(
                (
                    "set <人物> <屬性> <數值> 或 set item <物品> <價格>",
                    "設置角色屬性 (hp/mp/strength/knowledge/sociality/gold) 或物品價格",
                    "🛠️  其他",
                ),
            ),
            CommandResult::SwitchControl(..) => Some(
                ("ctrl / control <npc>", "切換操控的角色", "👥 NPC互動"),
            ),
            CommandResult::Trade(..) => Some(("trade <npc>", "查看NPC商品", "💰 交易")),
            CommandResult::Buy(..) => Some(("buy <npc> <item> [數量]", "購買物品", "💰 交易")),
            CommandResult::Sell(..) => Some(("sell <npc> <item> [數量]", "出售物品", "💰 交易")),
            CommandResult::Give(..) => Some(
                ("give <npc> <item> [數量]", "給予NPC物品", "👥 NPC互動"),
            ),
            CommandResult::Wait(..) => Some(("wait <npc>", "叫住NPC（基於好感度）", "👥 NPC互動")),
            CommandResult::Party(..) => Some(("party <npc>", "邀請NPC組隊", "👥 NPC互動")),
            CommandResult::Disband => Some(("disband", "解散隊伍", "👥 NPC互動")),
            CommandResult::Punch(..) => Some(("punch / ph [目標]", "拳擊（無目標=練習）", "⚔️  戰鬥")),
            CommandResult::Kick(..) => Some(("kick / kk [目標]", "踢擊（無目標=練習）", "⚔️  戰鬥")),
            CommandResult::Escape => Some(("escape / esc", "逃離戰鬥", "⚔️  戰鬥")),
            CommandResult::ListNpcs => Some(("npcs", "列出所有NPC", "👥 NPC互動")),
            _ => None,
        }
    }
}

// ---------------------------------------------------------------------------
// Parsing
// ---------------------------------------------------------------------------

/// `r` is `Error(m)` with the text `m`.
pub open spec fn is_error(r: CommandResult, m: Seq<char>) -> bool {
    r matches CommandResult::Error(e) && e@ == m
}

/// The view of an optional string.
pub open spec fn opt_view(o: Option<String>) -> Option<Seq<char>> {
    match o {
        Some(s) => Some(s@),
        None => None,
    }
}

/// `parse::<u32>().unwrap_or(d)`.
pub open spec fn u32_or(s: Seq<char>, d: u32) -> u32 {
    match parse_u32_spec(s) {
        Some(v) => v,
        None => d,
    }
}

/// The quantity argument at position `i`, 1 when it is absent or not a
/// number (`parts.get(i).and_then(parse).unwrap_or(1)`).
pub open spec fn qty_at(w: Seq<Seq<char>>, i: int) -> u32 {
    if i < w.len() {
        u32_or(w[i], 1)
    } else {
        1
    }
}

/// What [`parse_command`] answers for the words `w` of the input, for the
/// commands of the `quest` family.
pub open spec fn parses_quest(w: Seq<Seq<char>>, r: CommandResult) -> bool {
    if w.len() < 2 {
        r is QuestList
    } else {
        let s = w[1];
        if s == "list"@ {
            r is QuestList
        } else if s == "active"@ {
            r is QuestActive
        } else if s == "available"@ {
            r is QuestAvailable
        } else if s == "completed"@ {
            r is QuestCompleted
        } else if s == "info"@ {
            if w.len() < 3 {
                is_error(r, "Usage: quest info <quest_id>"@)
            } else {
                r matches CommandResult::QuestInfo(q) && q@ == w[2]
            }
        } else if s == "start"@ {
            if w.len() < 3 {
                is_error(r, "Usage: quest start <quest_id>"@)
            } else {
                r matches CommandResult::QuestStart(q) && q@ == w[2]
            }
        } else if s == "complete"@ {
            if w.len() < 3 {
                is_error(r, "Usage: quest complete <quest_id>"@)
            } else {
                r matches CommandResult::QuestComplete(q) && q@ == w[2]
            }
        } else if s == "abandon"@ {
            if w.len() < 3 {
                is_error(r, "Usage: quest abandon <quest_id>"@)
            } else {
                r matches CommandResult::QuestAbandon(q) && q@ == w[2]
            }
        } else {
            is_error(r, "Unknown quest command: "@ + w[1])
        }
    }
}

/// What [`parse_command`] answers for the words `w` of the input, for the
/// commands that act on the world, NPCs and items.
pub open spec fn parses_world(w: Seq<Seq<char>>, r: CommandResult) -> bool {
    let c = w[0];
    if c == "summon"@ || c == "sn"@ {
        if w.len() < 2 {
            is_error(r, "Usage: summon <npc名稱/id>"@)
        } else {
            r matches CommandResult::Summon(t) && t@ == w[1]
        }
    } else if c == "conq"@ || c == "conquer"@ {
        if w.len() < 2 {
            is_error(r, "Usage: conq <up|down|left|right>"@)
        } else {
            r matches CommandResult::Conquer(t) && t@ == w[1]
        }
    } else if c == "flyto"@ || c == "ft"@ {
        if w.len() < 2 {
            is_error(r, "Usage: flyto <目標>"@)
        } else {
            r matches CommandResult::FlyTo(t) && t@ == join(w.skip(1), " "@)
        }
    } else if c == "namehere"@ || c == "nh"@ {
        if w.len() < 2 {
            is_error(r, "Usage: namehere <名稱>"@)
        } else {
            r matches CommandResult::NameHere(t) && t@ == join(w.skip(1), " "@)
        }
    } else if c == "name"@ {
        if w.len() < 3 {
            is_error(r, "Usage: name <目標> <名稱>"@)
        } else {
            r matches CommandResult::Name(t, n) && t@ == w[1] && n@ == join(w.skip(2), " "@)
        }
    } else if c == "destroy"@ || c == "ds"@ {
        if w.len() < 2 {
            is_error(r, "Usage: destroy <目標>"@)
        } else {
            r matches CommandResult::Destroy(t) && t@ == w[1]
        }
    } else if c == "create"@ || c == "cr"@ {
        if w.len() < 3 {
            is_error(r, "Usage: create <類型> <物件類型> [名稱]"@)
        } else {
            r matches CommandResult::Create(a, b, n) && a@ == w[1] && b@ == w[2] && opt_view(n) == (
            if w.len() > 3 {
                Some(join(w.skip(3), " "@))
            } else {
                None
            })
        }
    } else if c == "set"@ {
        if w.len() < 4 {
            is_error(r, "Usage: set <人物> <屬性> <數值>"@)
        } else {
            r matches CommandResult::SetAttribute(t, a, v) && t@ == w[1] && a@ == w[2] && v == (match parse_i32_spec(w[3]) {
                Some(x) => x,
                None => 0,
            })
        }
    } else if c == "ctrl"@ || c == "control"@ {
        if w.len() < 2 {
            is_error(r, "Usage: ctrl <npc>"@)
        } else {
            r matches CommandResult::SwitchControl(t) && t@ == w[1]
        }
    } else if c == "trade"@ {
        if w.len() < 2 {
            is_error(r, "Usage: trade <npc>"@)
        } else {
            r matches CommandResult::Trade(t) && t@ == w[1]
        }
    } else if c == "buy"@ {
        if w.len() < 3 {
            is_error(r, "Usage: buy <npc> <item> [數量]"@)
        } else {
            r matches CommandResult::Buy(n, i, q) && n@ == w[1] && i@ == w[2] && q == qty_at(w, 3)
        }
    } else if c == "sell"@ {
        if w.len() < 3 {
            is_error(r, "Usage: sell <npc> <item> [數量]"@)
        } else {
            r matches CommandResult::Sell(n, i, q) && n@ == w[1] && i@ == w[2] && q == qty_at(w, 3)
        }
    } else if c == "give"@ {
        if w.len() < 3 {
            is_error(r, "Usage: give <npc> <item> [數量]"@)
        } else {
            r matches CommandResult::Give(n, i, q) && n@ == w[1] && i@ == w[2] && q == qty_at(w, 3)
        }
    } else if c == "talk"@ {
        if w.len() < 3 {
            is_error(r, "Usage: talk <npc> <話題>"@)
        } else {
            r matches CommandResult::Talk(n, t) && n@ == w[1] && t@ == join(w.skip(2), " "@)
        }
    } else if c == "wait"@ {
        if w.len() < 2 {
            is_error(r, "Usage: wait <npc>"@)
        } else {
            r matches CommandResult::Wait(t) && t@ == w[1]
        }
    } else if c == "party"@ {
        if w.len() < 2 {
            is_error(r, "Usage: party <npc>"@)
        } else {
            r matches CommandResult::Party(t) && t@ == w[1]
        }
    } else if c == "disband"@ {
        r is Disband
    } else if c == "punch"@ || c == "ph"@ {
        r matches CommandResult::Punch(t) && opt_view(t) == (if w.len() < 2 {
            None
        } else {
            Some(w[1])
        })
    } else if c == "kick"@ || c == "kk"@ {
        r matches CommandResult::Kick(t) && opt_view(t) == (if w.len() < 2 {
            None
        } else {
            Some(w[1])
        })
    } else if c == "escape"@ || c == "esc"@ {
        r is Escape
    } else if c == "check"@ {
        if w.len() < 2 {
            is_error(r, "Usage: check <npc>"@)
        } else {
            r matches CommandResult::CheckNpc(t) && t@ == w[1]
        }
    } else if c == "quest"@ || c == "q"@ {
        parses_quest(w, r)
    } else {
        is_error(r, "Unknown command: "@ + w[0])
    }
}

/// What [`parse_command`] answers for the words `w` of the input, for the
/// commands that control the game, the interface and the player.
pub open spec fn parses_basic(w: Seq<Seq<char>>, r: CommandResult) -> bool {
    let c = w[0];
    if c == "exit"@ || c == "quit"@ {
        r is Exit
    } else if c == "help"@ {
        r is Help
    } else if c == "save"@ {
        r matches CommandResult::Output(m) && m@ == "Save command: "@ + (if w.len() > 1 {
            w[1]
        } else {
            "save.txt"@
        })
    } else if c == "clear"@ {
        r is Clear
    } else if c == "status"@ || c == "i"@ {
        r matches CommandResult::CheckNpc(t) && t@ == "me"@
    } else if c == "hello"@ {
        if w.len() < 2 {
            is_error(r, "Usage: hello <message>"@)
        } else {
            r matches CommandResult::Output(m) && m@ == join(w.skip(1), " "@)
        }
    } else if c == "sideadd"@ {
        if w.len() < 2 {
            is_error(r, "Usage: sideadd <message>"@)
        } else {
            r matches CommandResult::AddToSide(m) && m@ == join(w.skip(1), " "@)
        }
    } else if c == "show"@ || c == "s"@ {
        if w.len() < 2 {
            is_error(r, "Usage: show <command>"@)
        } else if w[1] == "status"@ {
            r matches CommandResult::CheckNpc(t) && t@ == "me"@
        } else if w[1] == "world"@ {
            r is ShowWorld
        } else if w[1] == "minimap"@ {
            r is ShowMinimap
        } else if w[1] == "log"@ {
            r is ShowLog
        } else if w[1] == "map"@ || w[1] == "m"@ {
            r is ShowMap
        } else {
            is_error(r, "Unknown show command: "@ + w[1])
        }
    } else if c == "sm"@ {
        r is ShowMap
    } else if c == "hide"@ {
        if w.len() < 2 {
            is_error(r, "Usage: hide <command>"@)
        } else if w[1] == "minimap"@ {
            r is HideMinimap
        } else if w[1] == "log"@ {
            r is HideLog
        } else {
            is_error(r, "Unknown hide command: "@ + w[1])
        }
    } else if c == "typewriter"@ || c == "tw"@ {
        r is ToggleTypewriter
    } else if c == "look"@ || c == "l"@ {
        r matches CommandResult::Look(t) && opt_view(t) == (if w.len() < 2 {
            None
        } else {
            Some(w[1])
        })
    } else if c == "get"@ {
        r matches CommandResult::Get(t, q) && (if w.len() < 2 {
            t is None && q == 1
        } else {
            opt_view(t) == Some(w[1]) && q == (if w.len() == 2 {
                1
            } else {
                u32_or(w[2], 1)
            })
        })
    } else if c == "drop"@ {
        if w.len() < 2 {
            is_error(r, "Usage: drop <item name> [quantity]"@)
        } else {
            r matches CommandResult::Drop(t, q) && t@ == w[1] && q == (if w.len() == 2 {
                1
            } else {
                u32_or(w[2], 1)
            })
        }
    } else if c == "eat"@ {
        if w.len() < 2 {
            is_error(r, "Usage: eat <food name>"@)
        } else {
            r matches CommandResult::Eat(t) && t@ == w[1]
        }
    } else if c == "use"@ {
        if w.len() < 2 {
            is_error(r, "用法: use <物品名稱> [on <目標>]"@)
        } else if w.len() >= 4 && w[2] == "on"@ {
            r matches CommandResult::UseItemOn(i, t) && i@ == w[1] && t@ == w[3]
        } else {
            r matches CommandResult::UseItem(i) && i@ == w[1]
        }
    } else if c == "npcs"@ || c == "listnpcs"@ {
        r is ListNpcs
    } else if c == "sleep"@ {
        r is Sleep
    } else if c == "dream"@ {
        if w.len() < 2 {
            is_error(r, "Usage: dream [content]"@)
        } else {
            r matches CommandResult::Dream(Some(t)) && t@ == join(w.skip(1), " "@)
        }
    } else if c == "wakeup"@ || c == "wake"@ {
        r is WakeUp
    } else if c == "right"@ || c == "r"@ || c == "east"@ || c == "e"@ {
        r == CommandResult::Move(1, 0)
    } else if c == "left"@ || c == "west"@ || c == "w"@ {
        r == CommandResult::Move(-1i32, 0i32)
    } else if c == "up"@ || c == "u"@ || c == "north"@ || c == "n"@ {
        r == CommandResult::Move(0i32, -1i32)
    } else if c == "down"@ || c == "d"@ || c == "south"@ {
        r == CommandResult::Move(0, 1)
    } else {
        parses_world(w, r)
    }
}

/// Each word of a direction group steps one cell that way, whatever words
/// follow: up, u, north and n step north (y - 1); down, d and south step
/// south (y + 1); left, west and w step west (x - 1); right, r, east and e
/// step east (x + 1). So the up and the down words, and the left and the
/// right words, step in opposite ways.
/// The command words of [`parses_basic`] are told apart by their length
/// and their first letters.
proof fn lemma_command_words_apart()
    ensures
        "exit"@.len() == 4 && "exit"@[0] == 'e' && "exit"@[1] == 'x',
        "quit"@.len() == 4 && "quit"@[0] == 'q',
        "help"@.len() == 4 && "help"@[0] == 'h' && "help"@[1] == 'e',
        "save"@.len() == 4 && "save"@[0] == 's' && "save"@[1] == 'a',
        "clear"@.len() == 5 && "clear"@[0] == 'c',
        "status"@.len() == 6 && "status"@[0] == 's',
        "i"@.len() == 1 && "i"@[0] == 'i',
        "hello"@.len() == 5 && "hello"@[0] == 'h',
        "sideadd"@.len() == 7,
        "show"@.len() == 4 && "show"@[0] == 's' && "show"@[1] == 'h',
        "s"@.len() == 1 && "s"@[0] == 's',
        "sm"@.len() == 2 && "sm"@[0] == 's',
        "hide"@.len() == 4 && "hide"@[0] == 'h' && "hide"@[1] == 'i',
        "typewriter"@.len() == 10,
        "tw"@.len() == 2 && "tw"@[0] == 't',
        "look"@.len() == 4 && "look"@[0] == 'l' && "look"@[1] == 'o',
        "l"@.len() == 1 && "l"@[0] == 'l',
        "get"@.len() == 3 && "get"@[0] == 'g',
        "drop"@.len() == 4 && "drop"@[0] == 'd' && "drop"@[1] == 'r',
        "eat"@.len() == 3 && "eat"@[0] == 'e',
        "use"@.len() == 3 && "use"@[0] == 'u',
        "npcs"@.len() == 4 && "npcs"@[0] == 'n',
        "listnpcs"@.len() == 8,
        "sleep"@.len() == 5 && "sleep"@[0] == 's' && "sleep"@[1] == 'l',
        "dream"@.len() == 5 && "dream"@[0] == 'd',
        "wakeup"@.len() == 6 && "wakeup"@[0] == 'w',
        "wake"@.len() == 4 && "wake"@[0] == 'w' && "wake"@[1] == 'a',
        "right"@.len() == 5 && "right"@[0] == 'r',
        "r"@.len() == 1 && "r"@[0] == 'r',
        "east"@.len() == 4 && "east"@[0] == 'e' && "east"@[1] == 'a',
        "e"@.len() == 1 && "e"@[0] == 'e',
        "left"@.len() == 4 && "left"@[0] == 'l' && "left"@[1] == 'e',
        "west"@.len() == 4 && "west"@[0] == 'w' && "west"@[1] == 'e',
        "w"@.len() == 1 && "w"@[0] == 'w',
        "up"@.len() == 2 && "up"@[0] == 'u',
        "u"@.len() == 1 && "u"@[0] == 'u',
        "north"@.len() == 5 && "north"@[0] == 'n',
        "n"@.len() == 1 && "n"@[0] == 'n',
        "down"@.len() == 4 && "down"@[0] == 'd' && "down"@[1] == 'o',
        "d"@.len() == 1 && "d"@[0] == 'd',
        "south"@.len() == 5 && "south"@[0] == 's' && "south"@[1] == 'o',
{
    reveal_strlit("exit");
    reveal_strlit("quit");
    reveal_strlit("help");
    reveal_strlit("save");
    reveal_strlit("clear");
    reveal_strlit("status");
    reveal_strlit("i");
    reveal_strlit("hello");
    reveal_strlit("sideadd");
    reveal_strlit("show");
    reveal_strlit("s");
    reveal_strlit("sm");
    reveal_strlit("hide");
    reveal_strlit("typewriter");
    reveal_strlit("tw");
    reveal_strlit("look");
    reveal_strlit("l");
    reveal_strlit("get");
    reveal_strlit("drop");
    reveal_strlit("eat");
    reveal_strlit("use");
    reveal_strlit("npcs");
    reveal_strlit("listnpcs");
    reveal_strlit("sleep");
    reveal_strlit("dream");
    reveal_strlit("wakeup");
    reveal_strlit("wake");
    reveal_strlit("right");
    reveal_strlit("r");
    reveal_strlit("east");
    reveal_strlit("e");
    reveal_strlit("left");
    reveal_strlit("west");
    reveal_strlit("w");
    reveal_strlit("up");
    reveal_strlit("u");
    reveal_strlit("north");
    reveal_strlit("n");
    reveal_strlit("down");
    reveal_strlit("d");
    reveal_strlit("south");
}

#[verifier::rlimit(60)]
pub proof fn law_direction_words_step(w: Seq<Seq<char>>, r: CommandResult)
    requires
        w.len() > 0,
        parses_to(w, r),
    ensures
        (w[0] == "down"@ || w[0] == "d"@ || w[0] == "south"@) ==> r == CommandResult::Move(0i32, 1i32),
        (w[0] == "up"@ || w[0] == "u"@ || w[0] == "north"@ || w[0] == "n"@) ==> r == CommandResult::Move(0i32, -1i32),
        (w[0] == "left"@ || w[0] == "west"@ || w[0] == "w"@) ==> r == CommandResult::Move(-1i32, 0i32),
        (w[0] == "right"@ || w[0] == "r"@ || w[0] == "east"@ || w[0] == "e"@) ==> r == CommandResult::Move(1i32, 0i32),
{
    lemma_command_words_apart();
}

/// The words that name a command by themselves: exit and quit leave, help
/// shows the help, clear clears the output, status and i show the player,
/// sm shows the map, typewriter and tw toggle the typewriter, npcs and
/// listnpcs list the people, sleep sleeps, wakeup and wake wake up, look
/// and l look (at the next word, if any), and eat eats the next word.
pub proof fn law_command_words(w: Seq<Seq<char>>, r: CommandResult)
    requires
        w.len() > 0,
        parses_to(w, r),
    ensures
        (w[0] == "exit"@ || w[0] == "quit"@) ==> r is Exit,
        w[0] == "help"@ ==> r is Help,
        w[0] == "clear"@ ==> r is Clear,
        (w[0] == "status"@ || w[0] == "i"@) ==> (r matches CommandResult::CheckNpc(t) && t@ == "me"@),
        w[0] == "sm"@ ==> r is ShowMap,
        (w[0] == "typewriter"@ || w[0] == "tw"@) ==> r is ToggleTypewriter,
        (w[0] == "npcs"@ || w[0] == "listnpcs"@) ==> r is ListNpcs,
        w[0] == "sleep"@ ==> r is Sleep,
        (w[0] == "wakeup"@ || w[0] == "wake"@) ==> r is WakeUp,
        (w[0] == "look"@ || w[0] == "l"@) ==> (r matches CommandResult::Look(t) && (w.len() == 1 <==> t is None)),
        (w[0] == "eat"@ && w.len() >= 2) ==> (r matches CommandResult::Eat(t) && t@ == w[1]),
{
    lemma_command_words_apart();
}

/// What [`parse_command`] answers for the words `w` of its input.
pub open spec fn parses_to(w: Seq<Seq<char>>, r: CommandResult) -> bool {
    if w.len() == 0 {
        is_error(r, "No command provided"@)
    } else {
        parses_basic(w, r)
    }
}

/// `Error(msg)`.
pub fn error(msg: &str) -> (r: CommandResult)
    ensures
        is_error(r, msg@),
{
    CommandResult::Error(String::from_str(msg))
}

/// `Error(prefix + word)`.
fn error_with(prefix: &str, word: &String) -> (r: CommandResult)
    ensures
        is_error(r, prefix@ + word@),
{
    CommandResult::Error(concat(prefix, word.as_str()))
}

/// Whether word `i` of `parts` is `lit`.
pub fn word_is(parts: &Vec<String>, i: usize, lit: &str) -> (r: bool)
    requires
        i < parts@.len(),
    ensures
        r == (strs_view(parts@)[i as int] == lit@),
{
    str_eq(parts[i].as_str(), lit)
}

/// A copy of word `i` of `parts`.
pub fn word(parts: &Vec<String>, i: usize) -> (r: String)
    requires
        i < parts@.len(),
    ensures
        r@ == strs_view(parts@)[i as int],
{
    parts[i].clone()
}

/// `parts.get(i).and_then(|s| s.parse::<u32>().ok()).unwrap_or(1)`.
pub fn qty(parts: &Vec<String>, i: usize) -> (r: u32)
    ensures
        r == qty_at(strs_view(parts@), i as int),
{
    if i < parts.len() {
        match parse_u32(parts[i].as_str()) {
            Some(v) => v,
            None => 1,
        }
    } else {
        1
    }
}

fn parse_quest(parts: &Vec<String>) -> (r: CommandResult)
    requires
        parts@.len() >= 1,
    ensures
        parses_quest(strs_view(parts@), r),
{
    let n = parts.len();
    if n < 2 {
        CommandResult::QuestList
    } else if word_is(parts, 1, "list") {
        CommandResult::QuestList
    } else if word_is(parts, 1, "active") {
        CommandResult::QuestActive
    } else if word_is(parts, 1, "available") {
        CommandResult::QuestAvailable
    } else if word_is(parts, 1, "completed") {
        CommandResult::QuestCompleted
    } else if word_is(parts, 1, "info") {
        if n < 3 {
            error("Usage: quest info <quest_id>")
        } else {
            CommandResult::QuestInfo(word(parts, 2))
        }
    } else if word_is(parts, 1, "start") {
        if n < 3 {
            error("Usage: quest start <quest_id>")
        } else {
            CommandResult::QuestStart(word(parts, 2))
        }
    } else if word_is(parts, 1, "complete") {
        if n < 3 {
            error("Usage: quest complete <quest_id>")
        } else {
            CommandResult::QuestComplete(word(parts, 2))
        }
    } else if word_is(parts, 1, "abandon") {
        if n < 3 {
            error("Usage: quest abandon <quest_id>")
        } else {
            CommandResult::QuestAbandon(word(parts, 2))
        }
    } else {
        error_with("Unknown quest command: ", &parts[1])
    }
}

fn optional_word(parts: &Vec<String>, i: usize) -> (r: Option<String>)
    ensures
        opt_view(r) == (if i < parts@.len() {
            Some(strs_view(parts@)[i as int])
        } else {
            None
        }),
{
    if i < parts.len() {
        Some(word(parts, i))
    } else {
        None
    }
}

fn parse_world(parts: &Vec<String>) -> (r: CommandResult)
    requires
        parts@.len() >= 1,
    ensures
        parses_world(strs_view(parts@), r),
{
    let n = parts.len();
    if word_is(parts, 0, "summon") || word_is(parts, 0, "sn") {
        if n < 2 {
            error("Usage: summon <npc名稱/id>")
        } else {
            CommandResult::Summon(word(parts, 1))
        }
    } else if word_is(parts, 0, "conq") || word_is(parts, 0, "conquer") {
        if n < 2 {
            error("Usage: conq <up|down|left|right>")
        } else {
            CommandResult::Conquer(word(parts, 1))
        }
    } else if word_is(parts, 0, "flyto") || word_is(parts, 0, "ft") {
        if n < 2 {
            error("Usage: flyto <目標>")
        } else {
            CommandResult::FlyTo(join_from(parts, 1, " "))
        }
    } else if word_is(parts, 0, "namehere") || word_is(parts, 0, "nh") {
        if n < 2 {
            error("Usage: namehere <名稱>")
        } else {
            CommandResult::NameHere(join_from(parts, 1, " "))
        }
    } else if word_is(parts, 0, "name") {
        if n < 3 {
            error("Usage: name <目標> <名稱>")
        } else {
            CommandResult::Name(word(parts, 1), join_from(parts, 2, " "))
        }
    } else if word_is(parts, 0, "destroy") || word_is(parts, 0, "ds") {
        if n < 2 {
            error("Usage: destroy <目標>")
        } else {
            CommandResult::Destroy(word(parts, 1))
        }
    } else if word_is(parts, 0, "create") || word_is(parts, 0, "cr") {
        if n < 3 {
            error("Usage: create <類型> <物件類型> [名稱]")
        } else {
            let name = if n > 3 {
                Some(join_from(parts, 3, " "))
            } else {
                None
            };
            CommandResult::Create(word(parts, 1), word(parts, 2), name)
        }
    } else if word_is(parts, 0, "set") {
        if n < 4 {
            error("Usage: set <人物> <屬性> <數值>")
        } else {
            let value = match parse_i32(parts[3].as_str()) {
                Some(v) => v,
                None => 0,
            };
            CommandResult::SetAttribute(word(parts, 1), word(parts, 2), value)
        }
    } else if word_is(parts, 0, "ctrl") || word_is(parts, 0, "control") {
        if n < 2 {
            error("Usage: ctrl <npc>")
        } else {
            CommandResult::SwitchControl(word(parts, 1))
        }
    } else if word_is(parts, 0, "trade") {
        if n < 2 {
            error("Usage: trade <npc>")
        } else {
            CommandResult::Trade(word(parts, 1))
        }
    } else if word_is(parts, 0, "buy") {
        if n < 3 {
            error("Usage: buy <npc> <item> [數量]")
        } else {
            CommandResult::Buy(word(parts, 1), word(parts, 2), qty(parts, 3))
        }
    } else if word_is(parts, 0, "sell") {
        if n < 3 {
            error("Usage: sell <npc> <item> [數量]")
        } else {
            CommandResult::Sell(word(parts, 1), word(parts, 2), qty(parts, 3))
        }
    } else if word_is(parts, 0, "give") {
        if n < 3 {
            error("Usage: give <npc> <item> [數量]")
        } else {
            CommandResult::Give(word(parts, 1), word(parts, 2), qty(parts, 3))
        }
    } else if word_is(parts, 0, "talk") {
        if n < 3 {
            error("Usage: talk <npc> <話題>")
        } else {
            CommandResult::Talk(word(parts, 1), join_from(parts, 2, " "))
        }
    } else if word_is(parts, 0, "wait") {
        if n < 2 {
            error("Usage: wait <npc>")
        } else {
            CommandResult::Wait(word(parts, 1))
        }
    } else if word_is(parts, 0, "party") {
        if n < 2 {
            error("Usage: party <npc>")
        } else {
            CommandResult::Party(word(parts, 1))
        }
    } else if word_is(parts, 0, "disband") {
        CommandResult::Disband
    } else if word_is(parts, 0, "punch") || word_is(parts, 0, "ph") {
        CommandResult::Punch(optional_word(parts, 1))
    } else if word_is(parts, 0, "kick") || word_is(parts, 0, "kk") {
        CommandResult::Kick(optional_word(parts, 1))
    } else if word_is(parts, 0, "escape") || word_is(parts, 0, "esc") {
        CommandResult::Escape
    } else if word_is(parts, 0, "check") {
        if n < 2 {
            error("Usage: check <npc>")
        } else {
            CommandResult::CheckNpc(word(parts, 1))
        }
    } else if word_is(parts, 0, "quest") || word_is(parts, 0, "q") {
        parse_quest(parts)
    } else {
        error_with("Unknown command: ", &parts[0])
    }
}

fn parse_basic(parts: &Vec<String>) -> (r: CommandResult)
    requires
        parts@.len() >= 1,
    ensures
        parses_basic(strs_view(parts@), r),
{
    let n = parts.len();
    if word_is(parts, 0, "exit") || word_is(parts, 0, "quit") {
        CommandResult::Exit
    } else if word_is(parts, 0, "help") {
        CommandResult::Help
    } else if word_is(parts, 0, "save") {
        let filename = if n > 1 {
            word(parts, 1)
        } else {
            String::from_str("save.txt")
        };
        CommandResult::Output(concat("Save command: ", filename.as_str()))
    } else if word_is(parts, 0, "clear") {
        CommandResult::Clear
    } else if word_is(parts, 0, "status") || word_is(parts, 0, "i") {
        CommandResult::CheckNpc(String::from_str("me"))
    } else if word_is(parts, 0, "hello") {
        if n < 2 {
            error("Usage: hello <message>")
        } else {
            CommandResult::Output(join_from(parts, 1, " "))
        }
    } else if word_is(parts, 0, "sideadd") {
        if n < 2 {
            error("Usage: sideadd <message>")
        } else {
            CommandResult::AddToSide(join_from(parts, 1, " "))
        }
    } else if word_is(parts, 0, "show") || word_is(parts, 0, "s") {
        if n < 2 {
            error("Usage: show <command>")
        } else if word_is(parts, 1, "status") {
            CommandResult::CheckNpc(String::from_str("me"))
        } else if word_is(parts, 1, "world") {
            CommandResult::ShowWorld
        } else if word_is(parts, 1, "minimap") {
            CommandResult::ShowMinimap
        } else if word_is(parts, 1, "log") {
            CommandResult::ShowLog
        } else if word_is(parts, 1, "map") || word_is(parts, 1, "m") {
            CommandResult::ShowMap
        } else {
            error_with("Unknown show command: ", &parts[1])
        }
    } else if word_is(parts, 0, "sm") {
        CommandResult::ShowMap
    } else if word_is(parts, 0, "hide") {
        if n < 2 {
            error("Usage: hide <command>")
        } else if word_is(parts, 1, "minimap") {
            CommandResult::HideMinimap
        } else if word_is(parts, 1, "log") {
            CommandResult::HideLog
        } else {
            error_with("Unknown hide command: ", &parts[1])
        }
    } else if word_is(parts, 0, "typewriter") || word_is(parts, 0, "tw") {
        CommandResult::ToggleTypewriter
    } else if word_is(parts, 0, "look") || word_is(parts, 0, "l") {
        CommandResult::Look(optional_word(parts, 1))
    } else if word_is(parts, 0, "get") {
        if n < 2 {
            CommandResult::Get(None, 1)
        } else if n == 2 {
            CommandResult::Get(Some(word(parts, 1)), 1)
        } else {
            let q = match parse_u32(parts[2].as_str()) {
                Some(v) => v,
                None => 1,
            };
            CommandResult::Get(Some(word(parts, 1)), q)
        }
    } else if word_is(parts, 0, "drop") {
        if n < 2 {
            error("Usage: drop <item name> [quantity]")
        } else if n == 2 {
            CommandResult::Drop(word(parts, 1), 1)
        } else {
            let q = match parse_u32(parts[2].as_str()) {
                Some(v) => v,
                None => 1,
            };
            CommandResult::Drop(word(parts, 1), q)
        }
    } else if word_is(parts, 0, "eat") {
        if n < 2 {
            error("Usage: eat <food name>")
        } else {
            CommandResult::Eat(word(parts, 1))
        }
    } else if word_is(parts, 0, "use") {
        if n < 2 {
            error("用法: use <物品名稱> [on <目標>]")
        } else if n >= 4 && word_is(parts, 2, "on") {
            CommandResult::UseItemOn(word(parts, 1), word(parts, 3))
        } else {
            CommandResult::UseItem(word(parts, 1))
        }
    } else if word_is(parts, 0, "npcs") || word_is(parts, 0, "listnpcs") {
        CommandResult::ListNpcs
    } else if word_is(parts, 0, "sleep") {
        CommandResult::Sleep
    } else if word_is(parts, 0, "dream") {
        if n < 2 {
            error("Usage: dream [content]")
        } else {
            CommandResult::Dream(Some(join_from(parts, 1, " ")))
        }
    } else if word_is(parts, 0, "wakeup") || word_is(parts, 0, "wake") {
        CommandResult::WakeUp
    } else if word_is(parts, 0, "right") || word_is(parts, 0, "r") || word_is(parts, 0, "east")
        || word_is(parts, 0, "e") {
        CommandResult::Move(1, 0)
    } else if word_is(parts, 0, "left") || word_is(parts, 0, "west") || word_is(parts, 0, "w") {
        CommandResult::Move(-1, 0)
    } else if word_is(parts, 0, "up") || word_is(parts, 0, "u") || word_is(parts, 0, "north")
        || word_is(parts, 0, "n") {
        CommandResult::Move(0, -1)
    } else if word_is(parts, 0, "down") || word_is(parts, 0, "d") || word_is(parts, 0, "south") {
        CommandResult::Move(0, 1)
    } else {
        parse_world(parts)
    }
}

/// Parses one command line into the command it names.
pub fn parse_command(input: &str) -> (r: CommandResult)
    ensures
        parses_to(words(input@), r),
{
    let parts = split_words(input);
    if parts.len() == 0 {
        return error("No command provided");
    }
    parse_basic(&parts)
}

/// The commands that the help screen describes, one of each kind, in the
/// order in which they are listed.
pub open spec fn help_commands() -> Seq<CommandResult> {
    seq![
        CommandResult::Move(0, 0),
        CommandResult::Look(None),
        CommandResult::Conquer(arbitrary()),
        CommandResult::FlyTo(arbitrary()),
        CommandResult::NameHere(arbitrary()),
        CommandResult::Name(arbitrary(), arbitrary()),
        CommandResult::Help,
        CommandResult::Exit,
        CommandResult::Get(None, 1),
        CommandResult::Drop(arbitrary(), 1),
        CommandResult::Eat(arbitrary()),
        CommandResult::Sleep,
        CommandResult::Dream(None),
        CommandResult::WakeUp,
        CommandResult::Summon(arbitrary()),
        CommandResult::ShowMinimap,
        CommandResult::HideMinimap,
        CommandResult::ShowLog,
        CommandResult::HideLog,
        CommandResult::ShowMap,
        CommandResult::ShowWorld,
        CommandResult::ShowHistory(10),
        CommandResult::Clear,
        CommandResult::Destroy(arbitrary()),
        CommandResult::Create(arbitrary(), arbitrary(), None),
        CommandResult::SetAttribute(arbitrary(), arbitrary(), 0),
        CommandResult::SwitchControl(arbitrary()),
        CommandResult::Trade(arbitrary()),
        CommandResult::Buy(arbitrary(), arbitrary(), 1),
        CommandResult::Sell(arbitrary(), arbitrary(), 1),
        CommandResult::Give(arbitrary(), arbitrary(), 1),
        CommandResult::ListNpcs,
        CommandResult::SetDialogue(arbitrary(), arbitrary(), arbitrary()),
        CommandResult::SetDialogueWithConditions(arbitrary(), arbitrary(), arbitrary(), arbitrary()),
        CommandResult::SetEagerness(arbitrary(), 0),
        CommandResult::SetRelationship(arbitrary(), 0),
        CommandResult::ChangeRelationship(arbitrary(), 0),
        CommandResult::Talk(arbitrary(), arbitrary()),
        CommandResult::Wait(arbitrary()),
        CommandResult::CheckNpc(arbitrary()),
        CommandResult::ToggleTypewriter,
        CommandResult::QuestList,
        CommandResult::QuestActive,
        CommandResult::QuestAvailable,
        CommandResult::QuestCompleted,
        CommandResult::QuestInfo(arbitrary()),
        CommandResult::QuestStart(arbitrary()),
        CommandResult::QuestComplete(arbitrary()),
        CommandResult::QuestAbandon(arbitrary()),
    ]
}

/// The categories of the help screen, in the order in which they are shown.
pub open spec fn help_order() -> Seq<Seq<char>> {
    seq![
        "🎮 遊戲控制"@,
        "🎒 物品管理"@,
        "👥 NPC互動"@,
        "💰 交易"@,
        "⚔️  戰鬥"@,
        "🗺️  介面控制"@,
        "ℹ️  資訊查詢"@,
        "💤 睡眠"@,
        "🛠️  其他"@,
    ]
}

impl CommandResult {
    /// The help screen: for each category that holds a described command, in
    /// the order of [`help_order`], the (syntax, description) entries of its
    /// commands ordered by syntax, with the `re` command among the game
    /// controls.
    pub fn get_help_info() -> (r: Vec<(&'static str, Vec<(&'static str, &'static str)>)>)
        ensures
            help_matches(r@, help_groups(help_commands().map_values(|c: CommandResult| description_of(c)), help_order())),
    {
        let commands = vec![
        CommandResult::Move(0, 0),
        CommandResult::Look(None),
        CommandResult::Conquer(String::new()),
        CommandResult::FlyTo(String::new()),
        CommandResult::NameHere(String::new()),
        CommandResult::Name(String::new(), String::new()),
        CommandResult::Help,
        CommandResult::Exit,
        CommandResult::Get(None, 1),
        CommandResult::Drop(String::new(), 1),
        CommandResult::Eat(String::new()),
        CommandResult::Sleep,
        CommandResult::Dream(None),
        CommandResult::WakeUp,
        CommandResult::Summon(String::new()),
        CommandResult::ShowMinimap,
        CommandResult::HideMinimap,
        CommandResult::ShowLog,
        CommandResult::HideLog,
        CommandResult::ShowMap,
        CommandResult::ShowWorld,
        CommandResult::ShowHistory(10),
        CommandResult::Clear,
        CommandResult::Destroy(String::new()),
        CommandResult::Create(String::new(), String::new(), None),
        CommandResult::SetAttribute(String::new(), String::new(), 0),
        CommandResult::SwitchControl(String::new()),
        CommandResult::Trade(String::new()),
        CommandResult::Buy(String::new(), String::new(), 1),
        CommandResult::Sell(String::new(), String::new(), 1),
        CommandResult::Give(String::new(), String::new(), 1),
        CommandResult::ListNpcs,
        CommandResult::SetDialogue(String::new(), String::new(), String::new()),
        CommandResult::SetDialogueWithConditions(String::new(), String::new(), String::new(), String::new()),
        CommandResult::SetEagerness(String::new(), 0),
        CommandResult::SetRelationship(String::new(), 0),
        CommandResult::ChangeRelationship(String::new(), 0),
        CommandResult::Talk(String::new(), String::new()),
        CommandResult::Wait(String::new()),
        CommandResult::CheckNpc(String::new()),
        CommandResult::ToggleTypewriter,
        CommandResult::QuestList,
        CommandResult::QuestActive,
        CommandResult::QuestAvailable,
        CommandResult::QuestCompleted,
        CommandResult::QuestInfo(String::new()),
        CommandResult::QuestStart(String::new()),
        CommandResult::QuestComplete(String::new()),
        CommandResult::QuestAbandon(String::new()),
        ];
        let mut descs: Vec<Option<(&'static str, &'static str, &'static str)>> = Vec::new();
        let mut i: usize = 0;
        while i < commands.len()
            invariant
                i <= commands@.len(),
                commands@.len() == help_commands().len(),
                forall|k: int| 0 <= k < commands@.len() ==> description_of(#[trigger] commands@[k]) == description_of(help_commands()[k]),
                descs@.len() == i,
                forall|k: int| 0 <= k < i ==> desc_view(#[trigger] descs@[k]) == description_of(commands@[k]),
            decreases commands@.len() - i,
        {
            descs.push(commands[i].description());
            i = i + 1;
        }
        let order = vec![
        "🎮 遊戲控制",
        "🎒 物品管理",
        "👥 NPC互動",
        "💰 交易",
        "⚔️  戰鬥",
        "🗺️  介面控制",
        "ℹ️  資訊查詢",
        "💤 睡眠",
        "🛠️  其他",
        ];
        proof {
            assert(descs@.map_values(|d: Option<(&'static str, &'static str, &'static str)>| desc_view(d))
                =~= help_commands().map_values(|c: CommandResult| description_of(c)));
            assert(order@.map_values(|c: &'static str| c@) =~= help_order());
        }
        group_help(&descs, &order)
    }
}

} // verus!
