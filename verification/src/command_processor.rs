//! A plain text command parser for front ends without key handling. Command
//! words are matched without regard to case.
use vstd::prelude::*;
use crate::input::{CommandResult, is_error, opt_view};
use crate::text::{
    concat, join, join_from, lowercase, parse_i32, parse_i32_spec, parse_u32, parse_u32_spec,
    split_words, str_eq, strs_view, to_lowercase, words,
};

verus! {

/// The next step after parsing a command line: a command, or the eagerness
/// command whose level is still to be read from its decimal text (the
/// reading goes through floating point).
#[derive(Debug)]
pub enum ProcessorStep {
    Ready(CommandResult),
    Eagerness { npc: String, level_text: String },
}

/// Parses text commands.
pub struct CommandProcessor;

pub open spec fn ready_error(r: ProcessorStep, m: Seq<char>) -> bool {
    r matches ProcessorStep::Ready(c) && is_error(c, m)
}

pub open spec fn ready(r: ProcessorStep, c: CommandResult) -> bool {
    r == ProcessorStep::Ready(c)
}

pub open spec fn u32_or1(s: Seq<char>) -> u32 {
    match parse_u32_spec(s) {
        Some(v) => v,
        None => 1,
    }
}

/// The answer for the commands on NPCs, trade and dialogue, `c` being the
/// lowercase command word.
pub open spec fn processes_npc(c: Seq<char>, w: Seq<Seq<char>>, r: ProcessorStep) -> bool {
    if c == "npcs"@ || c == "listnpcs"@ {
        ready(r, CommandResult::ListNpcs)
    } else if c == "ctrl"@ || c == "control"@ {
        if w.len() > 1 {
            r matches ProcessorStep::Ready(CommandResult::SwitchControl(t)) && t@ == w[1]
        } else {
            ready_error(r, "用法: ctrl <NPC名稱/id>"@)
        }
    } else if c == "trade"@ {
        if w.len() > 1 {
            r matches ProcessorStep::Ready(CommandResult::Trade(t)) && t@ == w[1]
        } else {
            ready_error(r, "用法: trade <NPC>"@)
        }
    } else if c == "buy"@ {
        if w.len() >= 3 {
            r matches ProcessorStep::Ready(CommandResult::Buy(n, i, q)) && n@ == w[1] && i@ == w[2]
                && q == (if w.len() > 3 {
                u32_or1(w[3])
            } else {
                1
            })
        } else {
            ready_error(r, "用法: buy <NPC> <物品> [數量]"@)
        }
    } else if c == "sell"@ {
        if w.len() >= 3 {
            r matches ProcessorStep::Ready(CommandResult::Sell(n, i, q)) && n@ == w[1] && i@ == w[2]
                && q == (if w.len() > 3 {
                u32_or1(w[3])
            } else {
                1
            })
        } else {
            ready_error(r, "用法: sell <NPC> <物品> [數量]"@)
        }
    } else if c == "setdialogue"@ {
        if w.len() >= 4 {
            r matches ProcessorStep::Ready(CommandResult::SetDialogue(n, s, d)) && n@ == w[1] && s@
                == w[2] && d@ == join(w.skip(3), " "@)
        } else {
            ready_error(r, "用法: setdialogue <NPC> <場景> <對話>"@)
        }
    } else if c == "seteagerness"@ {
        if w.len() >= 3 {
            r matches ProcessorStep::Eagerness { npc, level_text } && npc@ == w[1] && level_text@
                == w[2]
        } else {
            ready_error(r, "用法: seteagerness <NPC> <熱情度0-1>"@)
        }
    } else if c == "typewriter"@ {
        ready(r, CommandResult::ToggleTypewriter)
    } else {
        ready_error(r, "未知命令: "@ + c)
    }
}

/// The answer for the commands on the world and the player's belongings.
pub open spec fn processes_world(c: Seq<char>, w: Seq<Seq<char>>, r: ProcessorStep) -> bool {
    if c == "get"@ || c == "take"@ || c == "pickup"@ {
        if w.len() > 1 {
            r matches ProcessorStep::Ready(CommandResult::Get(Some(t), q)) && t@ == join(
                w.skip(1),
                " "@,
            ) && q == 1
        } else {
            ready(r, CommandResult::Get(None, 1))
        }
    } else if c == "drop"@ {
        if w.len() > 1 {
            r matches ProcessorStep::Ready(CommandResult::Drop(t, q)) && t@ == w[1] && q == (if w.len()
                > 2 {
                u32_or1(w[2])
            } else {
                1
            })
        } else {
            ready_error(r, "用法: drop <物品> [數量]"@)
        }
    } else if c == "eat"@ {
        if w.len() > 1 {
            r matches ProcessorStep::Ready(CommandResult::Eat(t)) && t@ == w[1]
        } else {
            ready_error(r, "用法: eat <食物>"@)
        }
    } else if c == "sleep"@ {
        ready(r, CommandResult::Sleep)
    } else if c == "dream"@ {
        r matches ProcessorStep::Ready(CommandResult::Dream(t)) && opt_view(t) == (if w.len() > 1 {
            Some(join(w.skip(1), " "@))
        } else {
            None
        })
    } else if c == "wakeup"@ || c == "wake"@ {
        ready(r, CommandResult::WakeUp)
    } else if c == "summon"@ || c == "spawn"@ {
        if w.len() > 1 {
            r matches ProcessorStep::Ready(CommandResult::Summon(t)) && t@ == w[1]
        } else {
            ready_error(r, "用法: summon <NPC名稱>"@)
        }
    } else if c == "conquer"@ || c == "capture"@ {
        if w.len() > 1 {
            r matches ProcessorStep::Ready(CommandResult::Conquer(t)) && t@ == w[1]
        } else {
            ready_error(r, "用法: conquer <地點名稱>"@)
        }
    } else if c == "flyto"@ || c == "fly"@ || c == "teleport"@ || c == "tp"@ {
        if w.len() > 1 {
            r matches ProcessorStep::Ready(CommandResult::FlyTo(t)) && t@ == join(w.skip(1), " "@)
        } else {
            ready_error(r, "用法: flyto <地點>"@)
        }
    } else if c == "name"@ {
        if w.len() >= 3 {
            r matches ProcessorStep::Ready(CommandResult::Name(a, b)) && a@ == w[1] && b@ == join(
                w.skip(2),
                " "@,
            )
        } else if w.len() == 2 {
            r matches ProcessorStep::Ready(CommandResult::NameHere(a)) && a@ == w[1]
        } else {
            ready_error(r, "用法: name <新名稱> 或 name <舊名> <新名>"@)
        }
    } else if c == "create"@ {
        if w.len() >= 3 {
            r matches ProcessorStep::Ready(CommandResult::Create(a, b, d)) && a@ == w[1] && b@ == w[2]
                && opt_view(d) == (if w.len() > 3 {
                Some(join(w.skip(3), " "@))
            } else {
                None
            })
        } else {
            ready_error(r, "用法: create <類型> <名稱> [描述]"@)
        }
    } else if c == "destroy"@ || c == "remove"@ || c == "delete"@ {
        if w.len() > 1 {
            r matches ProcessorStep::Ready(CommandResult::Destroy(t)) && t@ == join(w.skip(1), " "@)
        } else {
            ready_error(r, "用法: destroy <目標>"@)
        }
    } else if c == "set"@ {
        if w.len() >= 4 {
            r matches ProcessorStep::Ready(CommandResult::SetAttribute(n, a, v)) && n@ == w[1] && a@
                == w[2] && v == (match parse_i32_spec(w[3]) {
                Some(x) => x,
                None => 0,
            })
        } else {
            ready_error(r, "用法: set <NPC> <屬性> <值>"@)
        }
    } else {
        processes_npc(c, w, r)
    }
}

/// What [`CommandProcessor::parse_command`] answers for the words `w` of its
/// input.
pub open spec fn processes(w: Seq<Seq<char>>, r: ProcessorStep) -> bool {
    if w.len() == 0 {
        ready_error(r, "沒有輸入命令"@)
    } else {
        let c = lowercase(w[0]);
        if c == "exit"@ || c == "quit"@ || c == "q"@ {
            ready(r, CommandResult::Exit)
        } else if c == "help"@ || c == "h"@ || c == "?"@ {
            ready(r, CommandResult::Help)
        } else if c == "up"@ || c == "u"@ || c == "north"@ || c == "n"@ {
            ready(r, CommandResult::Move(0, -1i32))
        } else if c == "down"@ || c == "d"@ || c == "south"@ || c == "s"@ {
            ready(r, CommandResult::Move(0, 1))
        } else if c == "left"@ || c == "west"@ || c == "w"@ {
            ready(r, CommandResult::Move(-1i32, 0))
        } else if c == "right"@ || c == "r"@ || c == "east"@ || c == "e"@ {
            ready(r, CommandResult::Move(1, 0))
        } else if c == "move"@ || c == "goto"@ || c == "go"@ {
            if w.len() >= 3 && parse_i32_spec(w[1]) is Some && parse_i32_spec(w[2]) is Some {
                ready(r, CommandResult::Move(parse_i32_spec(w[1])->0, parse_i32_spec(w[2])->0))
            } else {
                ready_error(r, "用法: move <x> <y>"@)
            }
        } else if c == "look"@ || c == "l"@ {
            r matches ProcessorStep::Ready(CommandResult::Look(t)) && opt_view(t) == (if w.len() > 1 {
                Some(join(w.skip(1), " "@))
            } else {
                None
            })
        } else if c == "status"@ || c == "stat"@ || c == "i"@ || c == "info"@ {
            ready(r, CommandResult::ShowStatus)
        } else if c == "map"@ || c == "showmap"@ || c == "m"@ {
            ready(r, CommandResult::ShowMap)
        } else if c == "minimap"@ || c == "mm"@ {
            ready(r, CommandResult::ShowMinimap)
        } else if c == "hidemap"@ {
            ready(r, CommandResult::HideMinimap)
        } else if c == "log"@ || c == "showlog"@ {
            ready(r, CommandResult::ShowLog)
        } else if c == "hidelog"@ {
            ready(r, CommandResult::HideLog)
        } else if c == "world"@ || c == "showworld"@ {
            ready(r, CommandResult::ShowWorld)
        } else if c == "clear"@ || c == "cls"@ {
            ready(r, CommandResult::Clear)
        } else {
            processes_world(c, w, r)
        }
    }
}

fn ready_err(msg: &str) -> (r: ProcessorStep)
    ensures
        ready_error(r, msg@),
{
    ProcessorStep::Ready(CommandResult::Error(String::from_str(msg)))
}

fn is_word(c: &String, lit: &str) -> (r: bool)
    ensures
        r == (c@ == lit@),
{
    str_eq(c.as_str(), lit)
}

fn word(parts: &Vec<String>, i: usize) -> (r: String)
    requires
        i < parts@.len(),
    ensures
        r@ == strs_view(parts@)[i as int],
{
    parts[i].clone()
}

fn u32_at_or1(parts: &Vec<String>, i: usize) -> (r: u32)
    requires
        i < parts@.len(),
    ensures
        r == u32_or1(strs_view(parts@)[i as int]),
{
    match parse_u32(parts[i].as_str()) {
        Some(v) => v,
        None => 1,
    }
}

fn process_npc(c: &String, parts: &Vec<String>) -> (r: ProcessorStep)
    requires
        parts@.len() >= 1,
    ensures
        processes_npc(c@, strs_view(parts@), r),
{
    let n = parts.len();
    if is_word(c, "npcs") || is_word(c, "listnpcs") {
        ProcessorStep::Ready(CommandResult::ListNpcs)
    } else if is_word(c, "ctrl") || is_word(c, "control") {
        if n > 1 {
            ProcessorStep::Ready(CommandResult::SwitchControl(word(parts, 1)))
        } else {
            ready_err("用法: ctrl <NPC名稱/id>")
        }
    } else if is_word(c, "trade") {
        if n > 1 {
            ProcessorStep::Ready(CommandResult::Trade(word(parts, 1)))
        } else {
            ready_err("用法: trade <NPC>")
        }
    } else if is_word(c, "buy") {
        if n >= 3 {
            let q = if n > 3 { u32_at_or1(parts, 3) } else { 1 };
            ProcessorStep::Ready(CommandResult::Buy(word(parts, 1), word(parts, 2), q))
        } else {
            ready_err("用法: buy <NPC> <物品> [數量]")
        }
    } else if is_word(c, "sell") {
        if n >= 3 {
            let q = if n > 3 { u32_at_or1(parts, 3) } else { 1 };
            ProcessorStep::Ready(CommandResult::Sell(word(parts, 1), word(parts, 2), q))
        } else {
            ready_err("用法: sell <NPC> <物品> [數量]")
        }
    } else if is_word(c, "setdialogue") {
        if n >= 4 {
            ProcessorStep::Ready(
                CommandResult::SetDialogue(word(parts, 1), word(parts, 2), join_from(parts, 3, " ")),
            )
        } else {
            ready_err("用法: setdialogue <NPC> <場景> <對話>")
        }
    } else if is_word(c, "seteagerness") {
        if n >= 3 {
            ProcessorStep::Eagerness { npc: word(parts, 1), level_text: word(parts, 2) }
        } else {
            ready_err("用法: seteagerness <NPC> <熱情度0-1>")
        }
    } else if is_word(c, "typewriter") {
        ProcessorStep::Ready(CommandResult::ToggleTypewriter)
    } else {
        ProcessorStep::Ready(CommandResult::Error(concat("未知命令: ", c.as_str())))
    }
}

fn process_world(c: &String, parts: &Vec<String>) -> (r: ProcessorStep)
    requires
        parts@.len() >= 1,
    ensures
        processes_world(c@, strs_view(parts@), r),
{
    let n = parts.len();
    if is_word(c, "get") || is_word(c, "take") || is_word(c, "pickup") {
        if n > 1 {
            ProcessorStep::Ready(CommandResult::Get(Some(join_from(parts, 1, " ")), 1))
        } else {
            ProcessorStep::Ready(CommandResult::Get(None, 1))
        }
    } else if is_word(c, "drop") {
        if n > 1 {
            let q = if n > 2 { u32_at_or1(parts, 2) } else { 1 };
            ProcessorStep::Ready(CommandResult::Drop(word(parts, 1), q))
        } else {
            ready_err("用法: drop <物品> [數量]")
        }
    } else if is_word(c, "eat") {
        if n > 1 {
            ProcessorStep::Ready(CommandResult::Eat(word(parts, 1)))
        } else {
            ready_err("用法: eat <食物>")
        }
    } else if is_word(c, "sleep") {
        ProcessorStep::Ready(CommandResult::Sleep)
    } else if is_word(c, "dream") {
        let target = if n > 1 {
            Some(join_from(parts, 1, " "))
        } else {
            None
        };
        ProcessorStep::Ready(CommandResult::Dream(target))
    } else if is_word(c, "wakeup") || is_word(c, "wake") {
        ProcessorStep::Ready(CommandResult::WakeUp)
    } else if is_word(c, "summon") || is_word(c, "spawn") {
        if n > 1 {
            ProcessorStep::Ready(CommandResult::Summon(word(parts, 1)))
        } else {
            ready_err("用法: summon <NPC名稱>")
        }
    } else if is_word(c, "conquer") || is_word(c, "capture") {
        if n > 1 {
            ProcessorStep::Ready(CommandResult::Conquer(word(parts, 1)))
        } else {
            ready_err("用法: conquer <地點名稱>")
        }
    } else if is_word(c, "flyto") || is_word(c, "fly") || is_word(c, "teleport") || is_word(c, "tp") {
        if n > 1 {
            ProcessorStep::Ready(CommandResult::FlyTo(join_from(parts, 1, " ")))
        } else {
            ready_err("用法: flyto <地點>")
        }
    } else if is_word(c, "name") {
        if n >= 3 {
            ProcessorStep::Ready(CommandResult::Name(word(parts, 1), join_from(parts, 2, " ")))
        } else if n == 2 {
            ProcessorStep::Ready(CommandResult::NameHere(word(parts, 1)))
        } else {
            ready_err("用法: name <新名稱> 或 name <舊名> <新名>")
        }
    } else if is_word(c, "create") {
        if n >= 3 {
            let desc = if n > 3 {
                Some(join_from(parts, 3, " "))
            } else {
                None
            };
            ProcessorStep::Ready(CommandResult::Create(word(parts, 1), word(parts, 2), desc))
        } else {
            ready_err("用法: create <類型> <名稱> [描述]")
        }
    } else if is_word(c, "destroy") || is_word(c, "remove") || is_word(c, "delete") {
        if n > 1 {
            ProcessorStep::Ready(CommandResult::Destroy(join_from(parts, 1, " ")))
        } else {
            ready_err("用法: destroy <目標>")
        }
    } else if is_word(c, "set") {
        if n >= 4 {
            let v = match parse_i32(parts[3].as_str()) {
                Some(x) => x,
                None => 0,
            };
            ProcessorStep::Ready(CommandResult::SetAttribute(word(parts, 1), word(parts, 2), v))
        } else {
            ready_err("用法: set <NPC> <屬性> <值>")
        }
    } else {
        process_npc(c, parts)
    }
}

impl CommandProcessor {
    pub fn new() -> (r: Self) {
        CommandProcessor
    }

    /// Parses one command line; the command word is matched in lowercase.
    pub fn parse_command(&self, input: &str) -> (r: ProcessorStep)
        ensures
            processes(words(input@), r),
    {
        let parts = split_words(input);
        let n = parts.len();
        if n == 0 {
            return ready_err("沒有輸入命令");
        }
        let c = to_lowercase(parts[0].as_str());
        if is_word(&c, "exit") || is_word(&c, "quit") || is_word(&c, "q") {
            ProcessorStep::Ready(CommandResult::Exit)
        } else if is_word(&c, "help") || is_word(&c, "h") || is_word(&c, "?") {
            ProcessorStep::Ready(CommandResult::Help)
        } else if is_word(&c, "up") || is_word(&c, "u") || is_word(&c, "north") || is_word(&c, "n") {
            ProcessorStep::Ready(CommandResult::Move(0, -1))
        } else if is_word(&c, "down") || is_word(&c, "d") || is_word(&c, "south") || is_word(&c, "s") {
            ProcessorStep::Ready(CommandResult::Move(0, 1))
        } else if is_word(&c, "left") || is_word(&c, "west") || is_word(&c, "w") {
            ProcessorStep::Ready(CommandResult::Move(-1, 0))
        } else if is_word(&c, "right") || is_word(&c, "r") || is_word(&c, "east") || is_word(&c, "e") {
            ProcessorStep::Ready(CommandResult::Move(1, 0))
        } else if is_word(&c, "move") || is_word(&c, "goto") || is_word(&c, "go") {
            if n >= 3 {
                let x = parse_i32(parts[1].as_str());
                let y = parse_i32(parts[2].as_str());
                match (x, y) {
                    (Some(x), Some(y)) => {
                        return ProcessorStep::Ready(CommandResult::Move(x, y));
                    },
                    _ => {},
                }
            }
            ready_err("用法: move <x> <y>")
        } else if is_word(&c, "look") || is_word(&c, "l") {
            let target = if n > 1 {
                Some(join_from(&parts, 1, " "))
            } else {
                None
            };
            ProcessorStep::Ready(CommandResult::Look(target))
        } else if is_word(&c, "status") || is_word(&c, "stat") || is_word(&c, "i") || is_word(&c, "info") {
            ProcessorStep::Ready(CommandResult::ShowStatus)
        } else if is_word(&c, "map") || is_word(&c, "showmap") || is_word(&c, "m") {
            ProcessorStep::Ready(CommandResult::ShowMap)
        } else if is_word(&c, "minimap") || is_word(&c, "mm") {
            ProcessorStep::Ready(CommandResult::ShowMinimap)
        } else if is_word(&c, "hidemap") {
            ProcessorStep::Ready(CommandResult::HideMinimap)
        } else if is_word(&c, "log") || is_word(&c, "showlog") {
            ProcessorStep::Ready(CommandResult::ShowLog)
        } else if is_word(&c, "hidelog") {
            ProcessorStep::Ready(CommandResult::HideLog)
        } else if is_word(&c, "world") || is_word(&c, "showworld") {
            ProcessorStep::Ready(CommandResult::ShowWorld)
        } else if is_word(&c, "clear") || is_word(&c, "cls") {
            ProcessorStep::Ready(CommandResult::Clear)
        } else {
            process_world(&c, &parts)
        }
    }
}

} // verus!
