use ratamud::command_handler::{parse_command, CommandResult};

fn error_text(r: CommandResult) -> String {
    match r {
        CommandResult::Error(e) => e,
        other => panic!("expected an error, got {:?}", other),
    }
}

#[test]
fn empty_line_is_an_error() {
    assert_eq!(error_text(parse_command("")), "No command provided");
    assert_eq!(error_text(parse_command("   \t ")), "No command provided");
}

#[test]
fn unknown_commands_are_named() {
    assert_eq!(error_text(parse_command("dance now")), "Unknown command: dance");
    assert_eq!(error_text(parse_command("show foo")), "Unknown show command: foo");
    assert_eq!(error_text(parse_command("hide map")), "Unknown hide command: map");
    assert_eq!(error_text(parse_command("quest dance")), "Unknown quest command: dance");
}

#[test]
fn simple_words() {
    assert!(matches!(parse_command("exit"), CommandResult::Exit));
    assert!(matches!(parse_command("quit"), CommandResult::Exit));
    assert!(matches!(parse_command("help"), CommandResult::Help));
    assert!(matches!(parse_command("clear"), CommandResult::Clear));
    assert!(matches!(parse_command("sm"), CommandResult::ShowMap));
    assert!(matches!(parse_command("show m"), CommandResult::ShowMap));
    assert!(matches!(parse_command("show log"), CommandResult::ShowLog));
    assert!(matches!(parse_command("hide minimap"), CommandResult::HideMinimap));
    assert!(matches!(parse_command("npcs"), CommandResult::ListNpcs));
    assert!(matches!(parse_command("disband"), CommandResult::Disband));
    assert!(matches!(parse_command("esc"), CommandResult::Escape));
    assert!(matches!(parse_command("tw"), CommandResult::ToggleTypewriter));
}

#[test]
fn status_checks_the_player() {
    match parse_command("status") {
        CommandResult::CheckNpc(n) => assert_eq!(n, "me"),
        other => panic!("{:?}", other),
    }
    match parse_command("show status") {
        CommandResult::CheckNpc(n) => assert_eq!(n, "me"),
        other => panic!("{:?}", other),
    }
}

#[test]
fn moves() {
    assert!(matches!(parse_command("up"), CommandResult::Move(0, -1)));
    assert!(matches!(parse_command("u"), CommandResult::Move(0, -1)));
    assert!(matches!(parse_command("d"), CommandResult::Move(0, 1)));
    assert!(matches!(parse_command("left"), CommandResult::Move(-1, 0)));
    assert!(matches!(parse_command("r"), CommandResult::Move(1, 0)));
    assert!(matches!(parse_command("n"), CommandResult::Move(0, -1)));
    assert!(matches!(parse_command("south"), CommandResult::Move(0, 1)));
    assert!(matches!(parse_command("e"), CommandResult::Move(1, 0)));
    assert!(matches!(parse_command("west"), CommandResult::Move(-1, 0)));
}

#[test]
fn save_names_its_file() {
    match parse_command("save") {
        CommandResult::Output(m) => assert_eq!(m, "Save command: save.txt"),
        other => panic!("{:?}", other),
    }
    match parse_command("save game.txt") {
        CommandResult::Output(m) => assert_eq!(m, "Save command: game.txt"),
        other => panic!("{:?}", other),
    }
}

#[test]
fn hello_joins_the_rest() {
    match parse_command("hello   big   world") {
        CommandResult::Output(m) => assert_eq!(m, "big world"),
        other => panic!("{:?}", other),
    }
    assert_eq!(error_text(parse_command("hello")), "Usage: hello <message>");
}

#[test]
fn get_and_drop_quantities() {
    assert!(matches!(parse_command("get"), CommandResult::Get(None, 1)));
    match parse_command("get apple") {
        CommandResult::Get(Some(i), 1) => assert_eq!(i, "apple"),
        other => panic!("{:?}", other),
    }
    match parse_command("get apple 3") {
        CommandResult::Get(Some(i), 3) => assert_eq!(i, "apple"),
        other => panic!("{:?}", other),
    }
    match parse_command("get apple many") {
        CommandResult::Get(Some(i), 1) => assert_eq!(i, "apple"),
        other => panic!("{:?}", other),
    }
    match parse_command("drop bread 2") {
        CommandResult::Drop(i, 2) => assert_eq!(i, "bread"),
        other => panic!("{:?}", other),
    }
    assert_eq!(error_text(parse_command("drop")), "Usage: drop <item name> [quantity]");
}

#[test]
fn use_on_a_target() {
    match parse_command("use potion on bob") {
        CommandResult::UseItemOn(i, t) => {
            assert_eq!(i, "potion");
            assert_eq!(t, "bob");
        },
        other => panic!("{:?}", other),
    }
    match parse_command("use potion bob") {
        CommandResult::UseItem(i) => assert_eq!(i, "potion"),
        other => panic!("{:?}", other),
    }
    assert_eq!(error_text(parse_command("use")), "用法: use <物品名稱> [on <目標>]");
}

#[test]
fn set_reads_a_number_or_zero() {
    match parse_command("set bob hp 50") {
        CommandResult::SetAttribute(t, a, 50) => {
            assert_eq!(t, "bob");
            assert_eq!(a, "hp");
        },
        other => panic!("{:?}", other),
    }
    assert!(matches!(parse_command("set bob hp lots"), CommandResult::SetAttribute(_, _, 0)));
    assert!(matches!(parse_command("set bob hp -7"), CommandResult::SetAttribute(_, _, -7)));
    assert_eq!(error_text(parse_command("set bob hp")), "Usage: set <人物> <屬性> <數值>");
}

#[test]
fn trading_commands() {
    match parse_command("buy merchant apple") {
        CommandResult::Buy(n, i, 1) => {
            assert_eq!(n, "merchant");
            assert_eq!(i, "apple");
        },
        other => panic!("{:?}", other),
    }
    assert!(matches!(parse_command("sell merchant apple 4"), CommandResult::Sell(_, _, 4)));
    assert!(matches!(parse_command("give bob apple x"), CommandResult::Give(_, _, 1)));
    assert_eq!(error_text(parse_command("buy merchant")), "Usage: buy <npc> <item> [數量]");
}

#[test]
fn multi_word_arguments() {
    match parse_command("flyto old  town") {
        CommandResult::FlyTo(t) => assert_eq!(t, "old town"),
        other => panic!("{:?}", other),
    }
    match parse_command("name bob the great") {
        CommandResult::Name(t, n) => {
            assert_eq!(t, "bob");
            assert_eq!(n, "the great");
        },
        other => panic!("{:?}", other),
    }
    match parse_command("create item apple red one") {
        CommandResult::Create(t, s, Some(n)) => {
            assert_eq!(t, "item");
            assert_eq!(s, "apple");
            assert_eq!(n, "red one");
        },
        other => panic!("{:?}", other),
    }
    assert!(matches!(parse_command("create item apple"), CommandResult::Create(_, _, None)));
    match parse_command("talk bob about the weather") {
        CommandResult::Talk(n, t) => {
            assert_eq!(n, "bob");
            assert_eq!(t, "about the weather");
        },
        other => panic!("{:?}", other),
    }
}

#[test]
fn combat_and_quests() {
    assert!(matches!(parse_command("punch"), CommandResult::Punch(None)));
    assert!(matches!(parse_command("kk wolf"), CommandResult::Kick(Some(_))));
    assert!(matches!(parse_command("quest"), CommandResult::QuestList));
    assert!(matches!(parse_command("q active"), CommandResult::QuestActive));
    match parse_command("quest start q1") {
        CommandResult::QuestStart(id) => assert_eq!(id, "q1"),
        other => panic!("{:?}", other),
    }
    assert_eq!(error_text(parse_command("quest abandon")), "Usage: quest abandon <quest_id>");
}

#[test]
fn descriptions_name_usage_and_category() {
    assert_eq!(CommandResult::Exit.description(), Some(("exit / quit", "退出遊戲", "🎮 遊戲控制")));
    assert_eq!(CommandResult::Clear.description(), Some(("clear", "清除訊息輸出", "🛠️  其他")));
    assert_eq!(CommandResult::Output(String::new()).description(), None);
}

#[test]
fn help_lists_categories_in_order_sorted() {
    let info = CommandResult::get_help_info();
    assert!(!info.is_empty());
    assert_eq!(info[0].0, "🎮 遊戲控制");
    for (_, cmds) in &info {
        for w in cmds.windows(2) {
            assert!(w[0].0 <= w[1].0);
        }
    }
    assert!(info[0].1.iter().any(|(u, _)| *u == "re / repeat"));
    assert!(info[0].1.iter().any(|(u, _)| *u == "exit / quit"));
}
