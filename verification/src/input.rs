//! The terminal front end's command line handling: the command history, the
//! repeat command, and parsing of text commands into [`CommandResult`]
//! values.
use vstd::prelude::*;
use std::collections::VecDeque;
use vstd::pervasive::arbitrary;
use crate::help::{desc_view, group_help, help_groups, help_matches};
use crate::text::{
    concat, join, join_from, join_range, lowercase, parse_i32, parse_i32_spec, parse_u32, pop_char, push_char,
    parse_u32_spec, parse_u8, parse_u8_spec, parse_usize, parse_usize_spec, split_words, str_eq,
    strs_view, to_lowercase, words,
};

verus! {

/// The outcome of parsing one command line: every kind of game command.
#[derive(Clone, Debug)]
pub enum CommandResult {
    Output(String),
    Error(String),
    Exit,
    Clear,
    AddToSide(String),
    ShowWorld,
    ShowMinimap,
    HideMinimap,
    ShowLog,
    HideLog,
    ShowMap,
    ShowHistory(usize),
    Look(Option<String>),
    Move(i32, i32),
    Get(Option<String>, u32),
    Drop(String, u32),
    Eat(String),
    UseItem(String),
    UseItemOn(String, String),
    Sleep,
    Dream(Option<String>),
    WakeUp,
    Summon(String),
    Conquer(String),
    FlyTo(String),
    NameHere(String),
    Name(String, String),
    Destroy(String),
    Create(String, String, Option<String>),
    SetAttribute(String, String, i32),
    SwitchControl(String),
    Trade(String),
    Buy(String, String, u32),
    Sell(String, String, u32),
    Give(String, String, u32),
    SetDialogue(String, String, String),
    SetDialogueWithConditions(String, String, String, String),
    SetEagerness(String, u8),
    SetRelationship(String, i32),
    ChangeRelationship(String, i32),
    Talk(String, String),
    Wait(String),
    Party(String),
    Disband,
    Punch(Option<String>),
    Kick(Option<String>),
    Escape,
    ListNpcs,
    CheckNpc(String),
    ToggleTypewriter,
    QuestList,
    QuestActive,
    QuestAvailable,
    QuestCompleted,
    QuestInfo(String),
    QuestStart(String),
    QuestComplete(String),
    QuestAbandon(String),
    Help,
    ShowStatus,
}

/// The help entry of a command: its syntax, what it does and its category.
pub open spec fn description_of(c: CommandResult) -> Option<(Seq<char>, Seq<char>, Seq<char>)> {
    match c {
        CommandResult::Exit => Some(("exit / quit"@, "退出遊戲"@, "🎮 遊戲控制"@)),
        CommandResult::Help => Some(("help"@, "顯示此幫助訊息"@, "🎮 遊戲控制"@)),
        CommandResult::Clear => Some(("clear"@, "清除訊息輸出"@, "🛠️  其他"@)),
        CommandResult::ShowHistory(..) => Some(
            ("history / hist [<數量>]"@, "顯示指令歷史記錄"@, "ℹ️  資訊查詢"@),
        ),
        CommandResult::Look(..) => Some(("look / l [<npc>]"@, "查看位置或NPC"@, "🎮 遊戲控制"@)),
        CommandResult::Move(..) => Some(
            ("↑↓←→ / up/down/left/right (u/d/r)"@, "移動角色"@, "🎮 遊戲控制"@),
        ),
        CommandResult::Conquer(..) => Some(
            ("conq / conquer <方向>"@, "征服方向使其可行走"@, "🎮 遊戲控制"@),
        ),
        CommandResult::FlyTo(..) => Some(
            ("flyto / ft <目標>"@, "傳送到位置/地圖/地點"@, "🎮 遊戲控制"@),
        ),
        CommandResult::NameHere(..) => Some(("namehere <名稱>"@, "命名當前地點"@, "🎮 遊戲控制"@)),
        CommandResult::Name(..) => Some(("name <目標> <名稱>"@, "命名NPC或地點"@, "🎮 遊戲控制"@)),
        CommandResult::Get(..) => Some(("get [<物品>] [<數量>]"@, "撿起物品"@, "🎒 物品管理"@)),
        CommandResult::Drop(..) => Some(("drop <物品> <數量>"@, "放下物品"@, "🎒 物品管理"@)),
        CommandResult::Eat(..) => Some(("eat <食物>"@, "吃食物回復HP"@, "🎒 物品管理"@)),
        CommandResult::UseItem(..) => Some(
            ("use <物品>"@, "使用物品（藥水/食物等）"@, "🎒 物品管理"@),
        ),
        CommandResult::UseItemOn(..) => Some(
            ("use <物品> on <npc>"@, "對NPC使用物品（藥水/食物等）"@, "🎒 物品管理"@),
        ),
        CommandResult::Sleep => Some(("sleep"@, "進入睡眠狀態"@, "💤 睡眠"@)),
        CommandResult::Dream(..) => Some(("dream [<內容>]"@, "做夢（睡眠時）"@, "💤 睡眠"@)),
        CommandResult::WakeUp => Some(("wakeup / wake"@, "從睡眠中醒來"@, "💤 睡眠"@)),
        CommandResult::Summon(..) => Some(("summon / sn <npc>"@, "召喚NPC到此"@, "👥 NPC互動"@)),
        CommandResult::ShowWorld => Some(("show world"@, "顯示世界資訊"@, "ℹ️  資訊查詢"@)),
        CommandResult::ShowMinimap => Some(("show minimap"@, "顯示小地圖"@, "🗺️  介面控制"@)),
        CommandResult::HideMinimap => Some(("hide minimap"@, "隱藏小地圖"@, "🗺️  介面控制"@)),
        CommandResult::ShowLog => Some(("show log"@, "顯示系統日誌"@, "🗺️  介面控制"@)),
        CommandResult::HideLog => Some(("hide log"@, "隱藏系統日誌"@, "🗺️  介面控制"@)),
        CommandResult::ShowMap => Some(
            ("show map / sm"@, "顯示大地圖 (↑↓←→移動, q退出"@, "🗺️  介面控制"@),
        ),
        CommandResult::Destroy(..) => Some(("destroy / ds <目標>"@, "刪除NPC或物品"@, "🛠️  其他"@)),
        CommandResult::Create(..) => Some(
            ("create / cr <類型> <物件類型> [名稱]"@, "創建物件 (item/npc)"@, "🛠️  其他"@),
        ),
        CommandResult::SetAttribute(..) => Some(
            (
                "set <人物> <屬性> <數值> 或 set item <物品> <價格>"@,
                "設置角色屬性 (hp/mp/strength/knowledge/sociality/gold) 或物品價格"@,
                "🛠️  其他"@,
            ),
        ),
        CommandResult::SwitchControl(..) => Some(
            ("ctrl / control <npc>"@, "切換操控的角色"@, "👥 NPC互動"@),
        ),
        CommandResult::Trade(..) => Some(("trade <npc>"@, "查看NPC商品"@, "💰 交易"@)),
        CommandResult::Buy(..) => Some(("buy <npc> <item> [數量]"@, "購買物品"@, "💰 交易"@)),
        CommandResult::Sell(..) => Some(("sell <npc> <item> [數量]"@, "出售物品"@, "💰 交易"@)),
        CommandResult::Give(..) => Some(
            ("give <npc> <item> [數量]"@, "給予NPC物品"@, "👥 NPC互動"@),
        ),
        CommandResult::Wait(..) => Some(("wait <npc>"@, "叫住NPC（基於好感度）"@, "👥 NPC互動"@)),
        CommandResult::Party(..) => Some(("party <npc>"@, "邀請NPC組隊"@, "👥 NPC互動"@)),
        CommandResult::Disband => Some(("disband"@, "解散隊伍"@, "👥 NPC互動"@)),
        CommandResult::Punch(..) => Some(("punch / ph [目標]"@, "拳擊（無目標=練習）"@, "⚔️  戰鬥"@)),
        CommandResult::Kick(..) => Some(("kick / kk [目標]"@, "踢擊（無目標=練習）"@, "⚔️  戰鬥"@)),
        CommandResult::Escape => Some(("escape / esc"@, "逃離戰鬥"@, "⚔️  戰鬥"@)),
        CommandResult::ListNpcs => Some(("npcs"@, "列出所有NPC"@, "👥 NPC互動"@)),
        _ => None,
    }
}

/// The views of a help entry.
pub open spec fn entry_view(e: Option<(&'static str, &'static str, &'static str)>) -> Option<
    (Seq<char>, Seq<char>, Seq<char>),
> {
    match e {
        Some((a, b, c)) => Some((a@, b@, c@)),
        None => None,
    }
}

impl CommandResult {
    /// The help entry of this command: (syntax, description, category).
    pub fn description(&self) -> (r: Option<(&'static str, &'static str, &'static str)>)
        ensures
            entry_view(r) == description_of(*self),
    {
        match self {
            CommandResult::Exit => Some(("exit / quit", "退出遊戲", "🎮 遊戲控制")),
            CommandResult::Help => Some(("help", "顯示此幫助訊息", "🎮 遊戲控制")),
            CommandResult::Clear => Some(("clear", "清除訊息輸出", "🛠️  其他")),
            CommandResult::ShowHistory(..) => Some(
                ("history / hist [<數量>]", "顯示指令歷史記錄", "ℹ️  資訊查詢"),
            ),
            CommandResult::Look(..) => Some(("look / l [<npc>]", "查看位置或NPC", "🎮 遊戲控制")),
            CommandResult::Move(..) => Some(
                ("↑↓←→ / up/down/left/right (u/d/r)", "移動角色", "🎮 遊戲控制"),
            ),
            CommandResult::Conquer(..) => Some(
                ("conq / conquer <方向>", "征服方向使其可行走", "🎮 遊戲控制"),
            ),
            CommandResult::FlyTo(..) => Some(
                ("flyto / ft <目標>", "傳送到位置/地圖/地點", "🎮 遊戲控制"),
            ),
            CommandResult::NameHere(..) => Some(("namehere <名稱>", "命名當前地點", "🎮 遊戲控制")),
            CommandResult::Name(..) => Some(("name <目標> <名稱>", "命名NPC或地點", "🎮 遊戲控制")),
            CommandResult::Get(..) => Some(("get [<物品>] [<數量>]", "撿起物品", "🎒 物品管理")),
            CommandResult::Drop(..) => Some(("drop <物品> <數量>", "放下物品", "🎒 物品管理")),
            CommandResult::Eat(..) => Some(("eat <食物>", "吃食物回復HP", "🎒 物品管理")),
            CommandResult::UseItem(..) => Some(
                ("use <物品>", "使用物品（藥水/食物等）", "🎒 物品管理"),
            ),
            CommandResult::UseItemOn(..) => Some(
                ("use <物品> on <npc>", "對NPC使用物品（藥水/食物等）", "🎒 物品管理"),
            ),
            CommandResult::Sleep => Some(("sleep", "進入睡眠狀態", "💤 睡眠")),
            CommandResult::Dream(..) => Some(("dream [<內容>]", "做夢（睡眠時）", "💤 睡眠")),
            CommandResult::WakeUp => Some(("wakeup / wake", "從睡眠中醒來", "💤 睡眠")),
            CommandResult::Summon(..) => Some(("summon / sn <npc>", "召喚NPC到此", "👥 NPC互動")),
            CommandResult::ShowWorld => Some(("show world", "顯示世界資訊", "ℹ️  資訊查詢")),
            CommandResult::ShowMinimap => Some(("show minimap", "顯示小地圖", "🗺️  介面控制")),
            CommandResult::HideMinimap => Some(("hide minimap", "隱藏小地圖", "🗺️  介面控制")),
            CommandResult::ShowLog => Some(("show log", "顯示系統日誌", "🗺️  介面控制")),
            CommandResult::HideLog => Some(("hide log", "隱藏系統日誌", "🗺️  介面控制")),
            CommandResult::ShowMap => Some(
                ("show map / sm", "顯示大地圖 (↑↓←→移動, q退出", "🗺️  介面控制"),
            ),
            CommandResult::Destroy(..) => Some(("destroy / ds <目標>", "刪除NPC或物品", "🛠️  其他")),
            CommandResult::Create(..) => Some(
                ("create / cr <類型> <物件類型> [名稱]", "創建物件 (item/npc)", "🛠️  其他"),
            ),
            CommandResult::SetAttribute(..) => Some(
                (
                    "set <人物> <屬性> <數值> 或 set item <物品> <價格>",
                    "設置角色屬性 (hp/mp/strength/knowledge/sociality/gold) 或物品價格",
                    "🛠️  其他",
                ),
            ),
            CommandResult::SwitchControl(..) => Some(
                ("ctrl / control <npc>", "切換操控的角色", "👥 NPC互動"),
            ),
            CommandResult::Trade(..) => Some(("trade <npc>", "查看NPC商品", "💰 交易")),
            CommandResult::Buy(..) => Some(("buy <npc> <item> [數量]", "購買物品", "💰 交易")),
            CommandResult::Sell(..) => Some(("sell <npc> <item> [數量]", "出售物品", "💰 交易")),
            CommandResult::Give(..) => Some(
                ("give <npc> <item> [數量]", "給予NPC物品", "👥 NPC互動"),
            ),
            CommandResult::Wait(..) => Some(("wait <npc>", "叫住NPC（基於好感度）", "👥 NPC互動")),
            CommandResult::Party(..) => Some(("party <npc>", "邀請NPC組隊", "👥 NPC互動")),
            CommandResult::Disband => Some(("disband", "解散隊伍", "👥 NPC互動")),
            CommandResult::Punch(..) => Some(("punch / ph [目標]", "拳擊（無目標=練習）", "⚔️  戰鬥")),
            CommandResult::Kick(..) => Some(("kick / kk [目標]", "踢擊（無目標=練習）", "⚔️  戰鬥")),
            CommandResult::Escape => Some(("escape / esc", "逃離戰鬥", "⚔️  戰鬥")),
            CommandResult::ListNpcs => Some(("npcs", "列出所有NPC", "👥 NPC互動")),
            _ => None,
        }
    }
}


/// The commands that the help screen describes, one of each kind, in the
/// order in which they are listed.
pub open spec fn help_commands() -> Seq<CommandResult> {
    seq![
        CommandResult::Move(0, 0),
        CommandResult::Look(None),
        CommandResult::Conquer(arbitrary()),
        CommandResult::FlyTo(arbitrary()),
        CommandResult::NameHere(arbitrary()),
        CommandResult::Name(arbitrary(), arbitrary()),
        CommandResult::Help,
        CommandResult::Exit,
        CommandResult::Get(None, 1),
        CommandResult::Drop(arbitrary(), 1),
        CommandResult::Eat(arbitrary()),
        CommandResult::Sleep,
        CommandResult::Dream(None),
        CommandResult::WakeUp,
        CommandResult::Summon(arbitrary()),
        CommandResult::ShowMinimap,
        CommandResult::HideMinimap,
        CommandResult::ShowLog,
        CommandResult::HideLog,
        CommandResult::ShowMap,
        CommandResult::ShowWorld,
        CommandResult::ShowHistory(10),
        CommandResult::Clear,
        CommandResult::Destroy(arbitrary()),
        CommandResult::Create(arbitrary(), arbitrary(), None),
        CommandResult::SetAttribute(arbitrary(), arbitrary(), 0),
        CommandResult::SwitchControl(arbitrary()),
        CommandResult::Trade(arbitrary()),
        CommandResult::Buy(arbitrary(), arbitrary(), 1),
        CommandResult::Sell(arbitrary(), arbitrary(), 1),
        CommandResult::Give(arbitrary(), arbitrary(), 1),
        CommandResult::ListNpcs,
        CommandResult::SetDialogue(arbitrary(), arbitrary(), arbitrary()),
        CommandResult::SetDialogueWithConditions(arbitrary(), arbitrary(), arbitrary(), arbitrary()),
        CommandResult::SetEagerness(arbitrary(), 0),
        CommandResult::SetRelationship(arbitrary(), 0),
        CommandResult::ChangeRelationship(arbitrary(), 0),
        CommandResult::Talk(arbitrary(), arbitrary()),
        CommandResult::Wait(arbitrary()),
        CommandResult::CheckNpc(arbitrary()),
        CommandResult::ToggleTypewriter,
        CommandResult::QuestList,
        CommandResult::QuestActive,
        CommandResult::QuestAvailable,
        CommandResult::QuestCompleted,
        CommandResult::QuestInfo(arbitrary()),
        CommandResult::QuestStart(arbitrary()),
        CommandResult::QuestComplete(arbitrary()),
        CommandResult::QuestAbandon(arbitrary()),
    ]
}

/// The categories of the help screen, in the order in which they are shown.
pub open spec fn help_order() -> Seq<Seq<char>> {
    seq![
        "🎮 遊戲控制"@,
        "🎒 物品管理"@,
        "👥 NPC互動"@,
        "💰 交易"@,
                "🗺️  介面控制"@,
        "ℹ️  資訊查詢"@,
        "💤 睡眠"@,
        "🛠️  其他"@,
    ]
}

impl CommandResult {
    /// The help screen: for each category that holds a described command, in
    /// the order of [`help_order`], the (syntax, description) entries of its
    /// commands ordered by syntax, with the `re` command among the game
    /// controls.
    pub fn get_help_info() -> (r: Vec<(&'static str, Vec<(&'static str, &'static str)>)>)
        ensures
            help_matches(r@, help_groups(help_commands().map_values(|c: CommandResult| description_of(c)), help_order())),
    {
        let commands = vec![
        CommandResult::Move(0, 0),
        CommandResult::Look(None),
        CommandResult::Conquer(String::new()),
        CommandResult::FlyTo(String::new()),
        CommandResult::NameHere(String::new()),
        CommandResult::Name(String::new(), String::new()),
        CommandResult::Help,
        CommandResult::Exit,
        CommandResult::Get(None, 1),
        CommandResult::Drop(String::new(), 1),
        CommandResult::Eat(String::new()),
        CommandResult::Sleep,
        CommandResult::Dream(None),
        CommandResult::WakeUp,
        CommandResult::Summon(String::new()),
        CommandResult::ShowMinimap,
        CommandResult::HideMinimap,
        CommandResult::ShowLog,
        CommandResult::HideLog,
        CommandResult::ShowMap,
        CommandResult::ShowWorld,
        CommandResult::ShowHistory(10),
        CommandResult::Clear,
        CommandResult::Destroy(String::new()),
        CommandResult::Create(String::new(), String::new(), None),
        CommandResult::SetAttribute(String::new(), String::new(), 0),
        CommandResult::SwitchControl(String::new()),
        CommandResult::Trade(String::new()),
        CommandResult::Buy(String::new(), String::new(), 1),
        CommandResult::Sell(String::new(), String::new(), 1),
        CommandResult::Give(String::new(), String::new(), 1),
        CommandResult::ListNpcs,
        CommandResult::SetDialogue(String::new(), String::new(), String::new()),
        CommandResult::SetDialogueWithConditions(String::new(), String::new(), String::new(), String::new()),
        CommandResult::SetEagerness(String::new(), 0),
        CommandResult::SetRelationship(String::new(), 0),
        CommandResult::ChangeRelationship(String::new(), 0),
        CommandResult::Talk(String::new(), String::new()),
        CommandResult::Wait(String::new()),
        CommandResult::CheckNpc(String::new()),
        CommandResult::ToggleTypewriter,
        CommandResult::QuestList,
        CommandResult::QuestActive,
        CommandResult::QuestAvailable,
        CommandResult::QuestCompleted,
        CommandResult::QuestInfo(String::new()),
        CommandResult::QuestStart(String::new()),
        CommandResult::QuestComplete(String::new()),
        CommandResult::QuestAbandon(String::new()),
        ];
        let mut descs: Vec<Option<(&'static str, &'static str, &'static str)>> = Vec::new();
        let mut i: usize = 0;
        while i < commands.len()
            invariant
                i <= commands@.len(),
                commands@.len() == help_commands().len(),
                forall|k: int| 0 <= k < commands@.len() ==> description_of(#[trigger] commands@[k]) == description_of(help_commands()[k]),
                descs@.len() == i,
                forall|k: int| 0 <= k < i ==> desc_view(#[trigger] descs@[k]) == description_of(commands@[k]),
            decreases commands@.len() - i,
        {
            descs.push(commands[i].description());
            i = i + 1;
        }
        let order = vec![
        "🎮 遊戲控制",
        "🎒 物品管理",
        "👥 NPC互動",
        "💰 交易",
                "🗺️  介面控制",
        "ℹ️  資訊查詢",
        "💤 睡眠",
        "🛠️  其他",
        ];
        proof {
            assert(descs@.map_values(|d: Option<(&'static str, &'static str, &'static str)>| desc_view(d))
                =~= help_commands().map_values(|c: CommandResult| description_of(c)));
            assert(order@.map_values(|c: &'static str| c@) =~= help_order());
        }
        group_help(&descs, &order)
    }
}


// ---------------------------------------------------------------------------
// Parsing
// ---------------------------------------------------------------------------

/// The next step after a command line: a command to carry out, or a request
/// to save the text buffer to the named file, whose outcome decides the
/// command's answer (see [`InputHandler::complete_save`]).
#[derive(Debug)]
pub enum InputStep {
    Ready(CommandResult),
    Save(String),
}

/// How writing the text buffer to a file ended.
#[derive(Debug)]
pub enum SaveOutcome {
    Saved,
    CreateFailed(String),
    WriteFailed(String),
}

pub open spec fn is_error(r: CommandResult, m: Seq<char>) -> bool {
    r matches CommandResult::Error(e) && e@ == m
}

pub open spec fn step_error(r: InputStep, m: Seq<char>) -> bool {
    r matches InputStep::Ready(c) && is_error(c, m)
}

pub open spec fn opt_view(o: Option<String>) -> Option<Seq<char>> {
    match o {
        Some(s) => Some(s@),
        None => None,
    }
}

pub open spec fn u32_or(s: Seq<char>, d: u32) -> u32 {
    match parse_u32_spec(s) {
        Some(v) => v,
        None => d,
    }
}

pub open spec fn i32_or(s: Seq<char>, d: i32) -> i32 {
    match parse_i32_spec(s) {
        Some(v) => v,
        None => d,
    }
}

/// The position of the first word of `w` that is `k`.
pub open spec fn first_index(w: Seq<Seq<char>>, k: Seq<char>) -> Option<int> {
    if exists|i: int| 0 <= i < w.len() && w[i] == k {
        Some(choose|i: int| 0 <= i < w.len() && w[i] == k && forall|j: int| 0 <= j < i ==> w[j] != k)
    } else {
        None
    }
}

pub open spec fn is_sdl(c: Seq<char>) -> bool {
    c == "setdialogue"@ || c == "setdia"@ || c == "sdl"@
}

/// The dialogue command on the words `w` slices its words out of order and
/// panics: `say` before `when` in the `set` form, or `when` among the first
/// four words in the `add` form.
pub open spec fn sdl_panics(w: Seq<Seq<char>>) -> bool {
    &&& w.len() >= 4
    &&& is_sdl(w[0])
    &&& if w[2] == "set"@ {
        &&& w.len() >= 6
        &&& first_index(w, "when"@) matches Some(wp)
        &&& first_index(w, "say"@) matches Some(sp)
        &&& sp <= wp
    } else {
        &&& w[3] == "add"@
        &&& first_index(w, "when"@) matches Some(wp)
        &&& wp < 4
    }
}

/// The answer to the dialogue command on the words `w`.
pub open spec fn parses_dialogue(w: Seq<Seq<char>>, r: CommandResult) -> bool {
    if w.len() < 4 {
        is_error(
            r,
            "Usage: sdl <npc> <話題> <對話> 或 sdl <npc> add/set <話題> when <條件> say <對話>"@,
        )
    } else if w[2] == "set"@ {
        if w.len() < 6 {
            is_error(r, "Usage: sdl <npc> set <話題> when <條件> say <對話>"@)
        } else {
            match first_index(w, "when"@) {
                Some(wp) => match first_index(w, "say"@) {
                    Some(sp) => r matches CommandResult::SetDialogueWithConditions(n, t, d, c) && n@
                        == w[1] && t@ == w[3] && d@ == join(w.subrange(sp + 1, w.len() as int), " "@)
                        && c@ == join(w.subrange(wp + 1, sp), " "@),
                    None => is_error(r, "缺少 'say' 關鍵字"@),
                },
                None => is_error(r, "缺少 'when' 關鍵字"@),
            }
        }
    } else if w[3] == "add"@ {
        match first_index(w, "when"@) {
            Some(wp) => r matches CommandResult::SetDialogueWithConditions(n, t, d, c) && n@ == w[1]
                && t@ == w[2] && d@ == join(w.subrange(4, wp), " "@) && c@ == join(
                w.subrange(wp + 1, w.len() as int),
                " "@,
            ),
            None => r matches CommandResult::SetDialogue(n, t, d) && n@ == w[1] && t@ == w[2] && d@
                == join(w.skip(4), " "@),
        }
    } else {
        r matches CommandResult::SetDialogue(n, t, d) && n@ == w[1] && t@ == w[2] && d@ == join(
            w.skip(3),
            " "@,
        )
    }
}

pub open spec fn parses_quest(w: Seq<Seq<char>>, r: CommandResult) -> bool {
    if w.len() < 2 {
        r is QuestList
    } else {
        let s = w[1];
        if s == "list"@ || s == "all"@ {
            r is QuestList
        } else if s == "active"@ || s == "current"@ {
            r is QuestActive
        } else if s == "available"@ || s == "avail"@ {
            r is QuestAvailable
        } else if s == "completed"@ || s == "done"@ {
            r is QuestCompleted
        } else if s == "info"@ || s == "show"@ {
            if w.len() < 3 {
                is_error(r, "Usage: quest info <任務ID>"@)
            } else {
                r matches CommandResult::QuestInfo(q) && q@ == w[2]
            }
        } else if s == "start"@ || s == "accept"@ {
            if w.len() < 3 {
                is_error(r, "Usage: quest start <任務ID>"@)
            } else {
                r matches CommandResult::QuestStart(q) && q@ == w[2]
            }
        } else if s == "complete"@ || s == "finish"@ {
            if w.len() < 3 {
                is_error(r, "Usage: quest complete <任務ID>"@)
            } else {
                r matches CommandResult::QuestComplete(q) && q@ == w[2]
            }
        } else if s == "abandon"@ || s == "cancel"@ {
            if w.len() < 3 {
                is_error(r, "Usage: quest abandon <任務ID>"@)
            } else {
                r matches CommandResult::QuestAbandon(q) && q@ == w[2]
            }
        } else {
            is_error(r, "Unknown quest subcommand: "@ + w[1])
        }
    }
}

pub open spec fn qty3(w: Seq<Seq<char>>) -> u32 {
    if w.len() > 3 {
        u32_or(w[3], 1)
    } else {
        1
    }
}

/// The answer for the commands that act on NPCs, items and quests.
pub open spec fn parses_npc(w: Seq<Seq<char>>, r: CommandResult) -> bool {
    let c = w[0];
    if c == "ctrl"@ || c == "control"@ {
        if w.len() < 2 {
            is_error(r, "Usage: ctrl <npc名稱/id>"@)
        } else {
            r matches CommandResult::SwitchControl(t) && t@ == w[1]
        }
    } else if c == "trade"@ {
        if w.len() < 2 {
            is_error(r, "Usage: trade <npc>"@)
        } else {
            r matches CommandResult::Trade(t) && t@ == w[1]
        }
    } else if c == "buy"@ {
        if w.len() < 3 {
            is_error(r, "Usage: buy <npc> <item> [quantity]"@)
        } else {
            r matches CommandResult::Buy(n, i, q) && n@ == w[1] && i@ == w[2] && q == qty3(w)
        }
    } else if c == "sell"@ {
        if w.len() < 3 {
            is_error(r, "Usage: sell <npc> <item> [quantity]"@)
        } else {
            r matches CommandResult::Sell(n, i, q) && n@ == w[1] && i@ == w[2] && q == qty3(w)
        }
    } else if c == "give"@ {
        if w.len() < 3 {
            is_error(r, "Usage: give <npc> <item> [quantity]"@)
        } else {
            r matches CommandResult::Give(n, i, q) && n@ == w[1] && i@ == w[2] && q == qty3(w)
        }
    } else if is_sdl(c) {
        parses_dialogue(w, r)
    } else if c == "seteagerness"@ || c == "setea"@ {
        if w.len() < 3 {
            is_error(r, "Usage: seteagerness <npc> <積極度(0-100)>"@)
        } else {
            r matches CommandResult::SetEagerness(n, e) && n@ == w[1] && e == (match parse_u8_spec(
                w[2],
            ) {
                Some(v) => if v < 100 {
                    v
                } else {
                    100u8
                },
                None => 100u8,
            })
        }
    } else if c == "setrelationship"@ || c == "setrel"@ {
        if w.len() < 3 {
            is_error(r, "Usage: setrelationship <npc> <好感度(-100~100)>"@)
        } else {
            r matches CommandResult::SetRelationship(n, v) && n@ == w[1] && v == (if i32_or(w[2], 0)
                < -100 {
                -100i32
            } else if i32_or(w[2], 0) > 100 {
                100i32
            } else {
                i32_or(w[2], 0)
            })
        }
    } else if c == "changerelationship"@ || c == "changerel"@ || c == "addrel"@ {
        if w.len() < 3 {
            is_error(r, "Usage: changerelationship <npc> <變化量>"@)
        } else {
            r matches CommandResult::ChangeRelationship(n, v) && n@ == w[1] && v == i32_or(w[2], 0)
        }
    } else if c == "talk"@ || c == "speak"@ {
        if w.len() < 2 {
            is_error(r, "Usage: talk <npc> [話題]"@)
        } else {
            r matches CommandResult::Talk(n, t) && n@ == w[1] && t@ == (if w.len() >= 3 {
                join(w.skip(2), " "@)
            } else {
                "閒聊"@
            })
        }
    } else if c == "wait"@ {
        r matches CommandResult::Wait(n) && n@ == (if w.len() < 2 {
            ""@
        } else {
            w[1]
        })
    } else if c == "party"@ {
        if w.len() < 2 {
            is_error(r, "Usage: party <npc>"@)
        } else {
            r matches CommandResult::Party(n) && n@ == w[1]
        }
    } else if c == "disband"@ {
        r is Disband
    } else if c == "punch"@ || c == "ph"@ {
        r matches CommandResult::Punch(t) && opt_view(t) == (if w.len() < 2 {
            None
        } else {
            Some(w[1])
        })
    } else if c == "kick"@ || c == "kk"@ {
        r matches CommandResult::Kick(t) && opt_view(t) == (if w.len() < 2 {
            None
        } else {
            Some(w[1])
        })
    } else if c == "escape"@ || c == "esc"@ {
        r is Escape
    } else if c == "check"@ || c == "inspect"@ || c == "examine"@ {
        r matches CommandResult::CheckNpc(n) && n@ == (if w.len() < 2 {
            "me"@
        } else {
            join(w.skip(1), " "@)
        })
    } else if c == "quest"@ {
        parses_quest(w, r)
    } else {
        is_error(r, "Unknown command: "@ + w[0])
    }
}

/// The answer for the commands that act on the world around the player.
pub open spec fn parses_world(w: Seq<Seq<char>>, r: CommandResult) -> bool {
    let c = w[0];
    if c == "right"@ || c == "r"@ {
        r == CommandResult::Move(1, 0)
    } else if c == "left"@ {
        r == CommandResult::Move(-1i32, 0)
    } else if c == "up"@ || c == "u"@ {
        r == CommandResult::Move(0, -1i32)
    } else if c == "down"@ || c == "d"@ {
        r == CommandResult::Move(0, 1)
    } else if c == "summon"@ || c == "sn"@ {
        if w.len() < 2 {
            is_error(r, "Usage: summon <npc名稱/id>"@)
        } else {
            r matches CommandResult::Summon(t) && t@ == w[1]
        }
    } else if c == "conq"@ || c == "conquer"@ {
        if w.len() < 2 {
            is_error(r, "Usage: conq <up|down|left|right>"@)
        } else {
            r matches CommandResult::Conquer(t) && t@ == w[1]
        }
    } else if c == "flyto"@ || c == "ft"@ {
        if w.len() < 2 {
            is_error(r, "Usage: flyto <x,y|地圖名|地點名>"@)
        } else {
            r matches CommandResult::FlyTo(t) && t@ == w[1]
        }
    } else if c == "namehere"@ {
        if w.len() < 2 {
            is_error(r, "Usage: namehere <名稱>"@)
        } else {
            r matches CommandResult::NameHere(t) && t@ == join(w.skip(1), " "@)
        }
    } else if c == "name"@ {
        if w.len() < 3 {
            is_error(r, "Usage: name <npc|x,y> <新名稱>"@)
        } else {
            r matches CommandResult::Name(t, n) && t@ == w[1] && n@ == join(w.skip(2), " "@)
        }
    } else if c == "destroy"@ || c == "ds"@ {
        if w.len() < 2 {
            is_error(r, "Usage: destroy <npc名稱|物品名稱>"@)
        } else {
            r matches CommandResult::Destroy(t) && t@ == w[1]
        }
    } else if c == "create"@ || c == "cr"@ {
        if w.len() < 3 {
            is_error(r, "Usage: create <item|npc> <物件類型> [名稱]"@)
        } else {
            r matches CommandResult::Create(a, b, n) && a@ == w[1] && b@ == w[2] && opt_view(n) == (
            if w.len() > 3 {
                Some(join(w.skip(3), " "@))
            } else {
                None
            })
        }
    } else if c == "set"@ {
        if w.len() < 4 {
            is_error(r, "Usage: set <目標人物> <屬性> <數值> 或 set item <物品名稱> <價格>"@)
        } else if lowercase(w[1]) == "item"@ {
            r matches CommandResult::SetAttribute(t, a, v) && t@ == "item"@ && a@ == w[2] && v
                == i32_or(w[3], 0)
        } else {
            r matches CommandResult::SetAttribute(t, a, v) && t@ == w[1] && a@ == w[2] && v
                == i32_or(w[3], 0)
        }
    } else {
        parses_npc(w, r)
    }
}

/// The answer for the commands that control the game, the interface and the
/// player's belongings.
pub open spec fn parses_basic(w: Seq<Seq<char>>, r: CommandResult) -> bool {
    let c = w[0];
    if c == "exit"@ || c == "quit"@ {
        r is Exit
    } else if c == "help"@ {
        r is Help
    } else if c == "clear"@ {
        r is Clear
    } else if c == "status"@ || c == "i"@ {
        r matches CommandResult::CheckNpc(t) && t@ == "me"@
    } else if c == "hello"@ {
        if w.len() < 2 {
            is_error(r, "Usage: hello <message>"@)
        } else {
            r matches CommandResult::Output(m) && m@ == join(w.skip(1), " "@)
        }
    } else if c == "sideadd"@ {
        if w.len() < 2 {
            is_error(r, "Usage: sideadd <message>"@)
        } else {
            r matches CommandResult::AddToSide(m) && m@ == join(w.skip(1), " "@)
        }
    } else if c == "show"@ || c == "s"@ {
        if w.len() < 2 {
            is_error(r, "Usage: show <command>"@)
        } else if w[1] == "status"@ {
            r matches CommandResult::CheckNpc(t) && t@ == "me"@
        } else if w[1] == "world"@ {
            r is ShowWorld
        } else if w[1] == "minimap"@ {
            r is ShowMinimap
        } else if w[1] == "log"@ {
            r is ShowLog
        } else if w[1] == "map"@ || w[1] == "m"@ {
            r is ShowMap
        } else {
            is_error(r, "Unknown show command: "@ + w[1])
        }
    } else if c == "sm"@ {
        r is ShowMap
    } else if c == "hide"@ {
        if w.len() < 2 {
            is_error(r, "Usage: hide <command>"@)
        } else if w[1] == "minimap"@ {
            r is HideMinimap
        } else if w[1] == "log"@ {
            r is HideLog
        } else {
            is_error(r, "Unknown hide command: "@ + w[1])
        }
    } else if c == "typewriter"@ || c == "tw"@ {
        r is ToggleTypewriter
    } else if c == "look"@ || c == "l"@ {
        r matches CommandResult::Look(t) && opt_view(t) == (if w.len() < 2 {
            None
        } else {
            Some(w[1])
        })
    } else if c == "get"@ {
        r matches CommandResult::Get(t, q) && (if w.len() < 2 {
            t is None && q == 1
        } else {
            opt_view(t) == Some(w[1]) && q == (if w.len() == 2 {
                1
            } else {
                u32_or(w[2], 1)
            })
        })
    } else if c == "drop"@ {
        if w.len() < 2 {
            is_error(r, "Usage: drop <item name> [quantity]"@)
        } else {
            r matches CommandResult::Drop(t, q) && t@ == w[1] && q == (if w.len() == 2 {
                1
            } else {
                u32_or(w[2], 1)
            })
        }
    } else if c == "eat"@ {
        if w.len() < 2 {
            is_error(r, "Usage: eat <food name>"@)
        } else {
            r matches CommandResult::Eat(t) && t@ == w[1]
        }
    } else if c == "use"@ {
        if w.len() < 2 {
            is_error(r, "用法: use <物品名稱> [on <目標>]"@)
        } else if w.len() >= 4 && w[2] == "on"@ {
            r matches CommandResult::UseItemOn(i, t) && i@ == w[1] && t@ == w[3]
        } else {
            r matches CommandResult::UseItem(i) && i@ == w[1]
        }
    } else if c == "npcs"@ || c == "listnpcs"@ {
        r is ListNpcs
    } else if c == "sleep"@ {
        r is Sleep
    } else if c == "dream"@ {
        if w.len() < 2 {
            is_error(r, "Usage: dream [content]"@)
        } else {
            r matches CommandResult::Dream(Some(t)) && t@ == join(w.skip(1), " "@)
        }
    } else if c == "wakeup"@ || c == "wake"@ {
        r is WakeUp
    } else {
        parses_world(w, r)
    }
}

/// The answer to a command line whose words `w` do not start with the
/// repeat command.
pub open spec fn parses_line(w: Seq<Seq<char>>, r: InputStep) -> bool {
    if w.len() == 0 {
        step_error(r, "No command provided"@)
    } else if w[0] == "history"@ || w[0] == "hist"@ {
        r == InputStep::Ready(
            CommandResult::ShowHistory(
                if w.len() > 1 {
                    match parse_usize_spec(w[1]) {
                        Some(v) => if v < 50 {
                            v
                        } else {
                            50usize
                        },
                        None => 10usize,
                    }
                } else {
                    10usize
                },
            ),
        )
    } else if w[0] == "save"@ {
        r matches InputStep::Save(f) && f@ == (if w.len() > 1 {
            w[1]
        } else {
            "save.txt"@
        })
    } else {
        r matches InputStep::Ready(c) && parses_basic(w, c)
    }
}

pub open spec fn is_repeat(w: Seq<Seq<char>>) -> bool {
    w.len() > 0 && (w[0] == "re"@ || w[0] == "repeat"@)
}

/// The words that a command line stands for: those of the previous command
/// for the repeat command, its own otherwise.
pub open spec fn effective_words(w: Seq<Seq<char>>, last: Option<Seq<char>>) -> Option<
    Seq<Seq<char>>,
> {
    if is_repeat(w) {
        match last {
            Some(l) => Some(words(l)),
            None => None,
        }
    } else {
        Some(w)
    }
}

/// The answer to a command line with words `w`, the previous command being
/// `last`.
pub open spec fn handles(w: Seq<Seq<char>>, last: Option<Seq<char>>, r: InputStep) -> bool {
    match effective_words(w, last) {
        Some(e) => parses_line(e, r),
        None => step_error(r, "沒有可重複的命令"@),
    }
}

/// A repeat answers what the previous command `c` answers, whatever came
/// before that one, provided `c` is no repeat itself; with no previous
/// command it is refused.
pub proof fn law_repeat_answers_previous(
    w: Seq<Seq<char>>,
    c: Seq<char>,
    earlier: Option<Seq<char>>,
    r: InputStep,
)
    requires
        is_repeat(w),
        !is_repeat(words(c)),
    ensures
        handles(w, Some(c), r) == handles(words(c), earlier, r),
        handles(w, None, r) == step_error(r, "沒有可重複的命令"@),
{
}

/// The handling of the command line with words `w` terminates and does not
/// panic: a repeat does not lead to another repeat, and no dialogue command
/// slices its words out of order.
pub open spec fn handle_ok(w: Seq<Seq<char>>, last: Option<Seq<char>>) -> bool {
    match effective_words(w, last) {
        Some(e) => !is_repeat(e) && !sdl_panics(e),
        None => true,
    }
}

/// The message that the `hello` command among the words `e` adds to the
/// text buffer.
pub open spec fn buffered_message(e: Option<Seq<Seq<char>>>) -> Option<Seq<char>> {
    match e {
        Some(w) => if w.len() >= 2 && w[0] == "hello"@ {
            Some(join(w.skip(1), " "@))
        } else {
            None
        },
        None => None,
    }
}

/// The history after recording `c` with room for `max` entries.
pub open spec fn history_after(h: Seq<Seq<char>>, max: usize, c: Seq<char>) -> Seq<Seq<char>> {
    if h.len() >= max && h.len() > 0 {
        h.drop_first().push(c)
    } else {
        h.push(c)
    }
}

/// The answer to one of the four direction words typed as a whole line.
pub open spec fn direction_line(s: Seq<char>) -> Option<CommandResult> {
    if s == "up"@ {
        Some(CommandResult::Move(0, -1i32))
    } else if s == "down"@ {
        Some(CommandResult::Move(0, 1))
    } else if s == "left"@ {
        Some(CommandResult::Move(-1i32, 0))
    } else if s == "right"@ {
        Some(CommandResult::Move(1, 0))
    } else {
        None
    }
}

/// The step that a command line `s` gives, the previous command being
/// `last`.
pub open spec fn line_step(s: Seq<char>, last: Option<Seq<char>>, r: InputStep) -> bool {
    match direction_line(s) {
        Some(c) => r == InputStep::Ready(c),
        None => handles(words(s), last, r),
    }
}

/// The command line `s` goes into the history when its answer `r` is known
/// and is no error.
pub open spec fn is_recorded(s: Seq<char>, r: InputStep) -> bool {
    s != "re"@ && s != "repeat"@ && (r matches InputStep::Ready(c) && !(c is Error))
}

/// Whether the command line `s` can be handled with the previous command
/// `last` (see [`handle_ok`]).
pub open spec fn line_ok(s: Seq<char>, last: Option<Seq<char>>) -> bool {
    direction_line(s) is Some || handle_ok(words(s), last)
}

pub open spec fn hist_view(h: VecDeque<String>) -> Seq<Seq<char>> {
    strs_view(h@)
}

/// Handles user text input: the current input line, the text buffer, the
/// previous command and the command history.
pub struct InputHandler {
    pub input: String,
    pub buffer: Vec<String>,
    pub last_command: Option<String>,
    pub command_history: VecDeque<String>,
    pub max_history: usize,
}

fn error(msg: &str) -> (r: CommandResult)
    ensures
        is_error(r, msg@),
{
    CommandResult::Error(String::from_str(msg))
}

fn error_with(prefix: &str, word: &String) -> (r: CommandResult)
    ensures
        is_error(r, prefix@ + word@),
{
    CommandResult::Error(concat(prefix, word.as_str()))
}

fn word_is(parts: &Vec<String>, i: usize, lit: &str) -> (r: bool)
    requires
        i < parts@.len(),
    ensures
        r == (strs_view(parts@)[i as int] == lit@),
{
    str_eq(parts[i].as_str(), lit)
}

fn word(parts: &Vec<String>, i: usize) -> (r: String)
    requires
        i < parts@.len(),
    ensures
        r@ == strs_view(parts@)[i as int],
{
    parts[i].clone()
}

fn optional_word(parts: &Vec<String>, i: usize) -> (r: Option<String>)
    ensures
        opt_view(r) == (if i < parts@.len() {
            Some(strs_view(parts@)[i as int])
        } else {
            None
        }),
{
    if i < parts.len() {
        Some(word(parts, i))
    } else {
        None
    }
}

fn u32_at(parts: &Vec<String>, i: usize, d: u32) -> (r: u32)
    requires
        i < parts@.len(),
    ensures
        r == u32_or(strs_view(parts@)[i as int], d),
{
    match parse_u32(parts[i].as_str()) {
        Some(v) => v,
        None => d,
    }
}

fn i32_at(parts: &Vec<String>, i: usize, d: i32) -> (r: i32)
    requires
        i < parts@.len(),
    ensures
        r == i32_or(strs_view(parts@)[i as int], d),
{
    match parse_i32(parts[i].as_str()) {
        Some(v) => v,
        None => d,
    }
}

fn find_word(parts: &Vec<String>, k: &str) -> (r: Option<usize>)
    ensures
        match r {
            Some(i) => i < parts@.len() && first_index(strs_view(parts@), k@) == Some(i as int),
            None => first_index(strs_view(parts@), k@) is None,
        },
{
    let ghost w = strs_view(parts@);
    let mut i: usize = 0;
    while i < parts.len()
        invariant
            i <= parts@.len(),
            w == strs_view(parts@),
            forall|j: int| 0 <= j < i ==> w[j] != k@,
        decreases parts@.len() - i,
    {
        if str_eq(parts[i].as_str(), k) {
            proof {
                let c = choose|x: int| 0 <= x < w.len() && w[x] == k@ && forall|j: int| 0 <= j < x ==> w[j] != k@;
                assert(0 <= i < w.len() && w[i as int] == k@ && forall|j: int| 0 <= j < i ==> w[j] != k@);
                if c < i {
                } else if c > i {
                    assert(w[i as int] != k@);
                }
            }
            return Some(i);
        }
        i = i + 1;
    }
    None
}

fn parse_dialogue(parts: &Vec<String>) -> (r: CommandResult)
    requires
        parts@.len() >= 1,
        !sdl_panics(strs_view(parts@)),
        is_sdl(strs_view(parts@)[0]),
    ensures
        parses_dialogue(strs_view(parts@), r),
{
    let n = parts.len();
    if n < 4 {
        return error("Usage: sdl <npc> <話題> <對話> 或 sdl <npc> add/set <話題> when <條件> say <對話>");
    }
    let npc = word(parts, 1);
    if word_is(parts, 2, "set") {
        if n < 6 {
            error("Usage: sdl <npc> set <話題> when <條件> say <對話>")
        } else {
            let topic = word(parts, 3);
            match find_word(parts, "when") {
                Some(wp) => match find_word(parts, "say") {
                    Some(sp) => {
                        let conditions = join_range(parts, wp + 1, sp, " ");
                        let dialogue = join_range(parts, sp + 1, n, " ");
                        CommandResult::SetDialogueWithConditions(npc, topic, dialogue, conditions)
                    },
                    None => error("缺少 'say' 關鍵字"),
                },
                None => error("缺少 'when' 關鍵字"),
            }
        }
    } else if word_is(parts, 3, "add") {
        let topic = word(parts, 2);
        match find_word(parts, "when") {
            Some(wp) => {
                let dialogue = join_range(parts, 4, wp, " ");
                let conditions = join_range(parts, wp + 1, n, " ");
                CommandResult::SetDialogueWithConditions(npc, topic, dialogue, conditions)
            },
            None => CommandResult::SetDialogue(npc, topic, join_from(parts, 4, " ")),
        }
    } else {
        CommandResult::SetDialogue(npc, word(parts, 2), join_from(parts, 3, " "))
    }
}

fn parse_quest(parts: &Vec<String>) -> (r: CommandResult)
    requires
        parts@.len() >= 1,
    ensures
        parses_quest(strs_view(parts@), r),
{
    let n = parts.len();
    if n < 2 {
        CommandResult::QuestList
    } else if word_is(parts, 1, "list") || word_is(parts, 1, "all") {
        CommandResult::QuestList
    } else if word_is(parts, 1, "active") || word_is(parts, 1, "current") {
        CommandResult::QuestActive
    } else if word_is(parts, 1, "available") || word_is(parts, 1, "avail") {
        CommandResult::QuestAvailable
    } else if word_is(parts, 1, "completed") || word_is(parts, 1, "done") {
        CommandResult::QuestCompleted
    } else if word_is(parts, 1, "info") || word_is(parts, 1, "show") {
        if n < 3 {
            error("Usage: quest info <任務ID>")
        } else {
            CommandResult::QuestInfo(word(parts, 2))
        }
    } else if word_is(parts, 1, "start") || word_is(parts, 1, "accept") {
        if n < 3 {
            error("Usage: quest start <任務ID>")
        } else {
            CommandResult::QuestStart(word(parts, 2))
        }
    } else if word_is(parts, 1, "complete") || word_is(parts, 1, "finish") {
        if n < 3 {
            error("Usage: quest complete <任務ID>")
        } else {
            CommandResult::QuestComplete(word(parts, 2))
        }
    } else if word_is(parts, 1, "abandon") || word_is(parts, 1, "cancel") {
        if n < 3 {
            error("Usage: quest abandon <任務ID>")
        } else {
            CommandResult::QuestAbandon(word(parts, 2))
        }
    } else {
        error_with("Unknown quest subcommand: ", &parts[1])
    }
}

fn parse_npc(parts: &Vec<String>) -> (r: CommandResult)
    requires
        parts@.len() >= 1,
        !sdl_panics(strs_view(parts@)),
    ensures
        parses_npc(strs_view(parts@), r),
{
    let n = parts.len();
    if word_is(parts, 0, "ctrl") || word_is(parts, 0, "control") {
        if n < 2 {
            error("Usage: ctrl <npc名稱/id>")
        } else {
            CommandResult::SwitchControl(word(parts, 1))
        }
    } else if word_is(parts, 0, "trade") {
        if n < 2 {
            error("Usage: trade <npc>")
        } else {
            CommandResult::Trade(word(parts, 1))
        }
    } else if word_is(parts, 0, "buy") {
        if n < 3 {
            error("Usage: buy <npc> <item> [quantity]")
        } else {
            let q = if n > 3 { u32_at(parts, 3, 1) } else { 1 };
            CommandResult::Buy(word(parts, 1), word(parts, 2), q)
        }
    } else if word_is(parts, 0, "sell") {
        if n < 3 {
            error("Usage: sell <npc> <item> [quantity]")
        } else {
            let q = if n > 3 { u32_at(parts, 3, 1) } else { 1 };
            CommandResult::Sell(word(parts, 1), word(parts, 2), q)
        }
    } else if word_is(parts, 0, "give") {
        if n < 3 {
            error("Usage: give <npc> <item> [quantity]")
        } else {
            let q = if n > 3 { u32_at(parts, 3, 1) } else { 1 };
            CommandResult::Give(word(parts, 1), word(parts, 2), q)
        }
    } else if word_is(parts, 0, "setdialogue") || word_is(parts, 0, "setdia") || word_is(
        parts,
        0,
        "sdl",
    ) {
        parse_dialogue(parts)
    } else if word_is(parts, 0, "seteagerness") || word_is(parts, 0, "setea") {
        if n < 3 {
            error("Usage: seteagerness <npc> <積極度(0-100)>")
        } else {
            let e: u8 = match parse_u8(parts[2].as_str()) {
                Some(v) => if v < 100 {
                    v
                } else {
                    100
                },
                None => 100,
            };
            CommandResult::SetEagerness(word(parts, 1), e)
        }
    } else if word_is(parts, 0, "setrelationship") || word_is(parts, 0, "setrel") {
        if n < 3 {
            error("Usage: setrelationship <npc> <好感度(-100~100)>")
        } else {
            let v = i32_at(parts, 2, 0);
            let c: i32 = if v < -100 {
                -100
            } else if v > 100 {
                100
            } else {
                v
            };
            CommandResult::SetRelationship(word(parts, 1), c)
        }
    } else if word_is(parts, 0, "changerelationship") || word_is(parts, 0, "changerel") || word_is(
        parts,
        0,
        "addrel",
    ) {
        if n < 3 {
            error("Usage: changerelationship <npc> <變化量>")
        } else {
            CommandResult::ChangeRelationship(word(parts, 1), i32_at(parts, 2, 0))
        }
    } else if word_is(parts, 0, "talk") || word_is(parts, 0, "speak") {
        if n < 2 {
            error("Usage: talk <npc> [話題]")
        } else {
            let topic = if n >= 3 {
                join_from(parts, 2, " ")
            } else {
                String::from_str("閒聊")
            };
            CommandResult::Talk(word(parts, 1), topic)
        }
    } else if word_is(parts, 0, "wait") {
        if n < 2 {
            CommandResult::Wait(String::from_str(""))
        } else {
            CommandResult::Wait(word(parts, 1))
        }
    } else if word_is(parts, 0, "party") {
        if n < 2 {
            error("Usage: party <npc>")
        } else {
            CommandResult::Party(word(parts, 1))
        }
    } else if word_is(parts, 0, "disband") {
        CommandResult::Disband
    } else if word_is(parts, 0, "punch") || word_is(parts, 0, "ph") {
        CommandResult::Punch(optional_word(parts, 1))
    } else if word_is(parts, 0, "kick") || word_is(parts, 0, "kk") {
        CommandResult::Kick(optional_word(parts, 1))
    } else if word_is(parts, 0, "escape") || word_is(parts, 0, "esc") {
        CommandResult::Escape
    } else if word_is(parts, 0, "check") || word_is(parts, 0, "inspect") || word_is(
        parts,
        0,
        "examine",
    ) {
        if n < 2 {
            CommandResult::CheckNpc(String::from_str("me"))
        } else {
            CommandResult::CheckNpc(join_from(parts, 1, " "))
        }
    } else if word_is(parts, 0, "quest") {
        parse_quest(parts)
    } else {
        error_with("Unknown command: ", &parts[0])
    }
}

fn parse_world(parts: &Vec<String>) -> (r: CommandResult)
    requires
        parts@.len() >= 1,
        !sdl_panics(strs_view(parts@)),
    ensures
        parses_world(strs_view(parts@), r),
{
    let n = parts.len();
    if word_is(parts, 0, "right") || word_is(parts, 0, "r") {
        CommandResult::Move(1, 0)
    } else if word_is(parts, 0, "left") {
        CommandResult::Move(-1, 0)
    } else if word_is(parts, 0, "up") || word_is(parts, 0, "u") {
        CommandResult::Move(0, -1)
    } else if word_is(parts, 0, "down") || word_is(parts, 0, "d") {
        CommandResult::Move(0, 1)
    } else if word_is(parts, 0, "summon") || word_is(parts, 0, "sn") {
        if n < 2 {
            error("Usage: summon <npc名稱/id>")
        } else {
            CommandResult::Summon(word(parts, 1))
        }
    } else if word_is(parts, 0, "conq") || word_is(parts, 0, "conquer") {
        if n < 2 {
            error("Usage: conq <up|down|left|right>")
        } else {
            CommandResult::Conquer(word(parts, 1))
        }
    } else if word_is(parts, 0, "flyto") || word_is(parts, 0, "ft") {
        if n < 2 {
            error("Usage: flyto <x,y|地圖名|地點名>")
        } else {
            CommandResult::FlyTo(word(parts, 1))
        }
    } else if word_is(parts, 0, "namehere") {
        if n < 2 {
            error("Usage: namehere <名稱>")
        } else {
            CommandResult::NameHere(join_from(parts, 1, " "))
        }
    } else if word_is(parts, 0, "name") {
        if n < 3 {
            error("Usage: name <npc|x,y> <新名稱>")
        } else {
            CommandResult::Name(word(parts, 1), join_from(parts, 2, " "))
        }
    } else if word_is(parts, 0, "destroy") || word_is(parts, 0, "ds") {
        if n < 2 {
            error("Usage: destroy <npc名稱|物品名稱>")
        } else {
            CommandResult::Destroy(word(parts, 1))
        }
    } else if word_is(parts, 0, "create") || word_is(parts, 0, "cr") {
        if n < 3 {
            error("Usage: create <item|npc> <物件類型> [名稱]")
        } else {
            let name = if n > 3 {
                Some(join_from(parts, 3, " "))
            } else {
                None
            };
            CommandResult::Create(word(parts, 1), word(parts, 2), name)
        }
    } else if word_is(parts, 0, "set") {
        if n < 4 {
            error("Usage: set <目標人物> <屬性> <數值> 或 set item <物品名稱> <價格>")
        } else {
            let lower = to_lowercase(parts[1].as_str());
            if str_eq(lower.as_str(), "item") {
                CommandResult::SetAttribute(String::from_str("item"), word(parts, 2), i32_at(parts, 3, 0))
            } else {
                CommandResult::SetAttribute(word(parts, 1), word(parts, 2), i32_at(parts, 3, 0))
            }
        }
    } else {
        parse_npc(parts)
    }
}

fn parse_basic(parts: &Vec<String>) -> (r: CommandResult)
    requires
        parts@.len() >= 1,
        !sdl_panics(strs_view(parts@)),
    ensures
        parses_basic(strs_view(parts@), r),
{
    let n = parts.len();
    if word_is(parts, 0, "exit") || word_is(parts, 0, "quit") {
        CommandResult::Exit
    } else if word_is(parts, 0, "help") {
        CommandResult::Help
    } else if word_is(parts, 0, "clear") {
        CommandResult::Clear
    } else if word_is(parts, 0, "status") || word_is(parts, 0, "i") {
        CommandResult::CheckNpc(String::from_str("me"))
    } else if word_is(parts, 0, "hello") {
        if n < 2 {
            error("Usage: hello <message>")
        } else {
            CommandResult::Output(join_from(parts, 1, " "))
        }
    } else if word_is(parts, 0, "sideadd") {
        if n < 2 {
            error("Usage: sideadd <message>")
        } else {
            CommandResult::AddToSide(join_from(parts, 1, " "))
        }
    } else if word_is(parts, 0, "show") || word_is(parts, 0, "s") {
        if n < 2 {
            error("Usage: show <command>")
        } else if word_is(parts, 1, "status") {
            CommandResult::CheckNpc(String::from_str("me"))
        } else if word_is(parts, 1, "world") {
            CommandResult::ShowWorld
        } else if word_is(parts, 1, "minimap") {
            CommandResult::ShowMinimap
        } else if word_is(parts, 1, "log") {
            CommandResult::ShowLog
        } else if word_is(parts, 1, "map") || word_is(parts, 1, "m") {
            CommandResult::ShowMap
        } else {
            error_with("Unknown show command: ", &parts[1])
        }
    } else if word_is(parts, 0, "sm") {
        CommandResult::ShowMap
    } else if word_is(parts, 0, "hide") {
        if n < 2 {
            error("Usage: hide <command>")
        } else if word_is(parts, 1, "minimap") {
            CommandResult::HideMinimap
        } else if word_is(parts, 1, "log") {
            CommandResult::HideLog
        } else {
            error_with("Unknown hide command: ", &parts[1])
        }
    } else if word_is(parts, 0, "typewriter") || word_is(parts, 0, "tw") {
        CommandResult::ToggleTypewriter
    } else if word_is(parts, 0, "look") || word_is(parts, 0, "l") {
        CommandResult::Look(optional_word(parts, 1))
    } else if word_is(parts, 0, "get") {
        if n < 2 {
            CommandResult::Get(None, 1)
        } else if n == 2 {
            CommandResult::Get(Some(word(parts, 1)), 1)
        } else {
            CommandResult::Get(Some(word(parts, 1)), u32_at(parts, 2, 1))
        }
    } else if word_is(parts, 0, "drop") {
        if n < 2 {
            error("Usage: drop <item name> [quantity]")
        } else if n == 2 {
            CommandResult::Drop(word(parts, 1), 1)
        } else {
            CommandResult::Drop(word(parts, 1), u32_at(parts, 2, 1))
        }
    } else if word_is(parts, 0, "eat") {
        if n < 2 {
            error("Usage: eat <food name>")
        } else {
            CommandResult::Eat(word(parts, 1))
        }
    } else if word_is(parts, 0, "use") {
        if n < 2 {
            error("用法: use <物品名稱> [on <目標>]")
        } else if n >= 4 && word_is(parts, 2, "on") {
            CommandResult::UseItemOn(word(parts, 1), word(parts, 3))
        } else {
            CommandResult::UseItem(word(parts, 1))
        }
    } else if word_is(parts, 0, "npcs") || word_is(parts, 0, "listnpcs") {
        CommandResult::ListNpcs
    } else if word_is(parts, 0, "sleep") {
        CommandResult::Sleep
    } else if word_is(parts, 0, "dream") {
        if n < 2 {
            error("Usage: dream [content]")
        } else {
            CommandResult::Dream(Some(join_from(parts, 1, " ")))
        }
    } else if word_is(parts, 0, "wakeup") || word_is(parts, 0, "wake") {
        CommandResult::WakeUp
    } else {
        parse_world(parts)
    }
}

fn parse_line(parts: &Vec<String>) -> (r: InputStep)
    requires
        !sdl_panics(strs_view(parts@)),
    ensures
        parses_line(strs_view(parts@), r),
{
    let n = parts.len();
    if n == 0 {
        InputStep::Ready(error("No command provided"))
    } else if word_is(parts, 0, "history") || word_is(parts, 0, "hist") {
        let count: usize = if n > 1 {
            match parse_usize(parts[1].as_str()) {
                Some(v) => if v < 50 {
                    v
                } else {
                    50
                },
                None => 10,
            }
        } else {
            10
        };
        InputStep::Ready(CommandResult::ShowHistory(count))
    } else if word_is(parts, 0, "save") {
        let filename = if n > 1 {
            word(parts, 1)
        } else {
            String::from_str("save.txt")
        };
        InputStep::Save(filename)
    } else {
        InputStep::Ready(parse_basic(parts))
    }
}

impl InputHandler {
    /// An empty handler that keeps up to 100 commands of history.
    pub fn new() -> (r: Self)
        ensures
            r.input@ == Seq::<char>::empty(),
            r.buffer@.len() == 0,
            r.last_command is None,
            r.command_history@.len() == 0,
            r.max_history == 100,
    {
        InputHandler {
            input: String::new(),
            buffer: Vec::new(),
            last_command: None,
            command_history: VecDeque::new(),
            max_history: 100,
        }
    }

    fn last_view(&self) -> (r: Option<String>)
        ensures
            opt_view(r) == opt_view(self.last_command),
    {
        match &self.last_command {
            Some(l) => Some(l.clone()),
            None => None,
        }
    }

    /// Handles a command line that is not one of the four plain directions.
    fn handle_command(&mut self, input: &str) -> (r: InputStep)
        requires
            handle_ok(words(input@), opt_view(old(self).last_command)),
        ensures
            handles(words(input@), opt_view(old(self).last_command), r),
            final(self).input == old(self).input,
            final(self).last_command == old(self).last_command,
            final(self).command_history == old(self).command_history,
            final(self).max_history == old(self).max_history,
            strs_view(final(self).buffer@) == (match buffered_message(
                effective_words(words(input@), opt_view(old(self).last_command)),
            ) {
                Some(m) => strs_view(old(self).buffer@).push(m),
                None => strs_view(old(self).buffer@),
            }),
    {
        let parts = split_words(input);
        let ghost w = strs_view(parts@);
        let ghost last = opt_view(self.last_command);
        let repeat = parts.len() > 0 && (word_is(&parts, 0, "re") || word_is(&parts, 0, "repeat"));
        let lines = if repeat {
            match self.last_view() {
                Some(l) => split_words(l.as_str()),
                None => {
                    return InputStep::Ready(error("沒有可重複的命令"));
                },
            }
        } else {
            parts
        };
        proof {
            assert(effective_words(w, last) == Some(strs_view(lines@)));
        }
        let step = parse_line(&lines);
        if lines.len() >= 2 && word_is(&lines, 0, "hello") {
            let ghost before = self.buffer@;
            self.buffer.push(join_from(&lines, 1, " "));
            proof {
                assert(strs_view(self.buffer@) =~= strs_view(before).push(join(strs_view(lines@).skip(1), " "@)));
            }
        }
        step
    }

    /// Records a command in the history, dropping the oldest entry when the
    /// history is full.
    fn add_to_history(&mut self, command: String)
        ensures
            hist_view(final(self).command_history) == history_after(
                hist_view(old(self).command_history),
                old(self).max_history,
                command@,
            ),
            final(self).input == old(self).input,
            final(self).buffer == old(self).buffer,
            final(self).last_command == old(self).last_command,
            final(self).max_history == old(self).max_history,
    {
        let ghost h = self.command_history@;
        if self.command_history.len() >= self.max_history && self.command_history.len() > 0 {
            self.command_history.pop_front();
            proof {
                assert(self.command_history@ =~= h.drop_first());
            }
        }
        self.command_history.push_back(command);
        proof {
            assert(hist_view(self.command_history) =~= history_after(strs_view(h), self.max_history, command@));
        }
    }

    /// Handles one command line: the four direction words as a whole line
    /// move; any other line is parsed (the repeat command standing for the
    /// previous command). A line that is neither a repeat nor answered by an
    /// error becomes the previous command and enters the history. A `save`
    /// line answers [`InputStep::Save`]; its outcome is recorded by
    /// [`InputHandler::complete_save`].
    pub fn process_command_string(&mut self, command_str: String) -> (r: Option<InputStep>)
        requires
            line_ok(command_str@, opt_view(old(self).last_command)),
        ensures
            r matches Some(step) && line_step(command_str@, opt_view(old(self).last_command), step)
                && (if is_recorded(command_str@, step) {
                opt_view(final(self).last_command) == Some(command_str@) && hist_view(
                    final(self).command_history,
                ) == history_after(
                    hist_view(old(self).command_history),
                    old(self).max_history,
                    command_str@,
                )
            } else {
                final(self).last_command == old(self).last_command && final(self).command_history
                    == old(self).command_history
            }),
            final(self).max_history == old(self).max_history,
            final(self).input == old(self).input,
    {
        let step = if str_eq(command_str.as_str(), "up") {
            InputStep::Ready(CommandResult::Move(0, -1))
        } else if str_eq(command_str.as_str(), "down") {
            InputStep::Ready(CommandResult::Move(0, 1))
        } else if str_eq(command_str.as_str(), "left") {
            InputStep::Ready(CommandResult::Move(-1, 0))
        } else if str_eq(command_str.as_str(), "right") {
            InputStep::Ready(CommandResult::Move(1, 0))
        } else {
            self.handle_command(command_str.as_str())
        };
        let record = !str_eq(command_str.as_str(), "re") && !str_eq(command_str.as_str(), "repeat")
            && match &step {
            InputStep::Ready(CommandResult::Error(_)) => false,
            InputStep::Ready(_) => true,
            InputStep::Save(_) => false,
        };
        if record {
            self.last_command = Some(command_str.clone());
            self.add_to_history(command_str);
        }
        Some(step)
    }

    /// The text buffer as the save command writes it: its lines joined by
    /// line breaks.
    pub fn save_content(&self) -> (r: String)
        ensures
            r@ == join(strs_view(self.buffer@), "\n"@),
    {
        proof {
            assert(strs_view(self.buffer@).skip(0) =~= strs_view(self.buffer@));
        }
        join_from(&self.buffer, 0, "\n")
    }

    /// The answer to a save command `command_str` for file `filename`, once
    /// the write has ended with `outcome`; a successful save is recorded like
    /// any other command.
    pub fn complete_save(&mut self, command_str: String, filename: &str, outcome: SaveOutcome) -> (r: CommandResult)
        ensures
            match outcome {
                SaveOutcome::Saved => r matches CommandResult::Output(m) && m@ == "Saved "@
                    + crate::text::decimal(old(self).buffer@.len() as nat) + " lines to "@ + filename@,
                SaveOutcome::CreateFailed(e) => is_error(r, "File error: "@ + e@),
                SaveOutcome::WriteFailed(e) => is_error(r, "Write error: "@ + e@),
            },
            if outcome is Saved && command_str@ != "re"@ && command_str@ != "repeat"@ {
                opt_view(final(self).last_command) == Some(command_str@) && hist_view(
                    final(self).command_history,
                ) == history_after(
                    hist_view(old(self).command_history),
                    old(self).max_history,
                    command_str@,
                )
            } else {
                final(self).last_command == old(self).last_command && final(self).command_history
                    == old(self).command_history
            },
            final(self).buffer == old(self).buffer,
    {
        match outcome {
            SaveOutcome::Saved => {
                let mut m = String::from_str("Saved ");
                crate::text::push_decimal(&mut m, self.buffer.len() as u64);
                m.append(" lines to ");
                m.append(filename);
                if !str_eq(command_str.as_str(), "re") && !str_eq(command_str.as_str(), "repeat") {
                    self.last_command = Some(command_str.clone());
                    self.add_to_history(command_str);
                }
                CommandResult::Output(m)
            },
            SaveOutcome::CreateFailed(e) => error_with("File error: ", &e),
            SaveOutcome::WriteFailed(e) => error_with("Write error: ", &e),
        }
    }

    /// The command history, oldest first.
    pub fn get_history(&self) -> (r: &VecDeque<String>)
        ensures
            r == &self.command_history,
    {
        &self.command_history
    }

    /// The last `count` commands of the history, newest first.
    pub fn get_recent_commands(&self, count: usize) -> (r: Vec<String>)
        ensures
            r@.len() == (if count < self.command_history@.len() {
                count as int
            } else {
                self.command_history@.len() as int
            }),
            forall|i: int|
                0 <= i < r@.len() ==> (#[trigger] r@[i])@ == self.command_history@[self.command_history@.len()
                    - 1 - i]@,
    {
        let n = self.command_history.len();
        let mut r: Vec<String> = Vec::new();
        let mut i: usize = 0;
        while i < count && i < n
            invariant
                n == self.command_history@.len(),
                i <= n,
                i <= count,
                r@.len() == i,
                forall|k: int| 0 <= k < i ==> (#[trigger] r@[k])@ == self.command_history@[n - 1 - k]@,
            decreases n - i,
        {
            r.push(self.command_history[n - 1 - i].clone());
            i = i + 1;
        }
        r
    }

    /// The number of commands in the history.
    pub fn history_count(&self) -> (r: usize)
        ensures
            r == self.command_history@.len(),
    {
        self.command_history.len()
    }

    /// The text typed so far.
    pub fn get_input(&self) -> (r: &str)
        ensures
            r@ == self.input@,
    {
        self.input.as_str()
    }

    /// Empties the text typed so far.
    pub fn clear_input(&mut self)
        ensures
            final(self).input@ == Seq::<char>::empty(),
            final(self).buffer == old(self).buffer,
            final(self).last_command == old(self).last_command,
            final(self).command_history == old(self).command_history,
            final(self).max_history == old(self).max_history,
    {
        self.input = String::new();
    }
}


/// The history never holds more than its room: recording a command in a
/// history within its room of `max` entries (at least one) keeps it within,
/// and the command recorded is the newest entry.
pub proof fn law_history_bounded(h: Seq<Seq<char>>, max: usize, c: Seq<char>)
    requires
        0 < max,
        h.len() <= max,
    ensures
        history_after(h, max, c).len() <= max,
        history_after(h, max, c).last() == c,
        h.len() < max ==> history_after(h, max, c).drop_last() == h,
        h.len() == max ==> history_after(h, max, c).drop_last() == h.drop_first(),
{
    if h.len() == max {
        assert(history_after(h, max, c).drop_last() =~= h.drop_first());
    } else {
        assert(history_after(h, max, c).drop_last() =~= h);
    }
}

/// A key as the input line reads it.
#[derive(Clone, Copy, Debug, PartialEq, Eq, Structural)]
pub enum Key {
    Up,
    Down,
    Left,
    Right,
    Esc,
    Char(char),
    Backspace,
    Enter,
    PageUp,
    PageDown,
    F(u8),
    Other,
}

/// What a key press on the input line leads to.
#[derive(Debug)]
pub enum KeyOutcome {
    /// A command line to process.
    Command(String),
    /// The game menu opens if it is closed and closes if it is open.
    ToggleMenu,
    /// Nothing beyond the change to the input line.
    Nothing,
}

impl InputHandler {
    /// The effect of a key press on the input line: an arrow gives its
    /// direction command; Esc toggles the game menu; a character is typed;
    /// Backspace takes the last character off; Enter hands over the line
    /// typed, if any, and empties it; other keys do nothing.
    pub fn key_to_command_string(&mut self, key: Key) -> (r: KeyOutcome)
        ensures
            final(self).buffer == old(self).buffer,
            final(self).last_command == old(self).last_command,
            final(self).command_history == old(self).command_history,
            final(self).max_history == old(self).max_history,
            match key {
                Key::Up => r matches KeyOutcome::Command(c) && c@ == "up"@ && final(self).input == old(self).input,
                Key::Down => r matches KeyOutcome::Command(c) && c@ == "down"@ && final(self).input
                    == old(self).input,
                Key::Left => r matches KeyOutcome::Command(c) && c@ == "left"@ && final(self).input
                    == old(self).input,
                Key::Right => r matches KeyOutcome::Command(c) && c@ == "right"@ && final(self).input
                    == old(self).input,
                Key::Esc => r is ToggleMenu && final(self).input == old(self).input,
                Key::Char(ch) => r is Nothing && final(self).input@ == old(self).input@.push(ch),
                Key::Backspace => r is Nothing && final(self).input@ == (if old(self).input@.len() > 0 {
                    old(self).input@.drop_last()
                } else {
                    old(self).input@
                }),
                Key::Enter => if old(self).input@.len() > 0 {
                    r matches KeyOutcome::Command(c) && c@ == old(self).input@ && final(self).input@.len()
                        == 0
                } else {
                    r is Nothing && final(self).input == old(self).input
                },
                _ => r is Nothing && final(self).input == old(self).input,
            },
    {
        match key {
            Key::Up => KeyOutcome::Command(String::from_str("up")),
            Key::Down => KeyOutcome::Command(String::from_str("down")),
            Key::Left => KeyOutcome::Command(String::from_str("left")),
            Key::Right => KeyOutcome::Command(String::from_str("right")),
            Key::Esc => KeyOutcome::ToggleMenu,
            Key::Char(c) => {
                push_char(&mut self.input, c);
                KeyOutcome::Nothing
            },
            Key::Backspace => {
                pop_char(&mut self.input);
                KeyOutcome::Nothing
            },
            Key::Enter => {
                if self.input.as_str().unicode_len() > 0 {
                    let cmd = self.input.clone();
                    self.input = String::new();
                    proof {
                        assert(self.input@.len() == 0);
                    }
                    KeyOutcome::Command(cmd)
                } else {
                    KeyOutcome::Nothing
                }
            },
            _ => KeyOutcome::Nothing,
        }
    }
}

/// The position of the first word of `w` that is `k`, computed.
fn first_word_index(w: &Vec<String>, k: &str) -> (r: Option<usize>)
    ensures
        match r {
            Some(i) => first_index(strs_view(w@), k@) == Some(i as int),
            None => first_index(strs_view(w@), k@) is None,
        },
{
    let ghost v = strs_view(w@);
    let mut i: usize = 0;
    while i < w.len()
        invariant
            i <= w@.len(),
            v == strs_view(w@),
            forall|j: int| 0 <= j < i ==> v[j] != k@,
        decreases w@.len() - i,
    {
        if str_eq(w[i].as_str(), k) {
            proof {
                assert(v[i as int] == k@);
                let c = choose|c: int| 0 <= c < v.len() && v[c] == k@ && forall|j: int| 0 <= j < c ==> v[j] != k@;
                if c < i {
                    assert(v[c] != k@);
                }
                if c > i {
                    assert(v[i as int] != k@);
                }
            }
            return Some(i);
        }
        i = i + 1;
    }
    None
}

fn is_sdl_word(w: &Vec<String>) -> (r: bool)
    requires
        w@.len() > 0,
    ensures
        r == is_sdl(strs_view(w@)[0]),
{
    str_eq(w[0].as_str(), "setdialogue") || str_eq(w[0].as_str(), "setdia") || str_eq(w[0].as_str(), "sdl")
}

fn panics_on(w: &Vec<String>) -> (r: bool)
    ensures
        r == sdl_panics(strs_view(w@)),
{
    if w.len() < 4 || !is_sdl_word(w) {
        return false;
    }
    if str_eq(w[2].as_str(), "set") {
        if w.len() < 6 {
            return false;
        }
        match (first_word_index(w, "when"), first_word_index(w, "say")) {
            (Some(wp), Some(sp)) => sp <= wp,
            _ => false,
        }
    } else {
        if !str_eq(w[3].as_str(), "add") {
            return false;
        }
        match first_word_index(w, "when") {
            Some(wp) => wp < 4,
            None => false,
        }
    }
}

fn repeats(w: &Vec<String>) -> (r: bool)
    ensures
        r == is_repeat(strs_view(w@)),
{
    w.len() > 0 && (str_eq(w[0].as_str(), "re") || str_eq(w[0].as_str(), "repeat"))
}

impl InputHandler {
    /// Whether `command_str` can be handled now: a repeat would not lead to
    /// another repeat (which would never end), and a dialogue command would
    /// not slice its words out of order (which panics).
    pub fn can_process(&self, command_str: &str) -> (r: bool)
        ensures
            r == line_ok(command_str@, opt_view(self.last_command)),
    {
        proof {
            reveal_strlit("up");
            reveal_strlit("down");
            reveal_strlit("left");
            reveal_strlit("right");
        }
        if str_eq(command_str, "up") || str_eq(command_str, "down") || str_eq(command_str, "left")
            || str_eq(command_str, "right") {
            return true;
        }
        let w = split_words(command_str);
        if repeats(&w) {
            match &self.last_command {
                Some(l) => {
                    let e = split_words(l.as_str());
                    !repeats(&e) && !panics_on(&e)
                },
                None => true,
            }
        } else {
            !panics_on(&w)
        }
    }
}

} // verus!
