//! Messages that the world produces for the output panes.
use vstd::prelude::*;
use crate::text::{decimal, push_decimal, push_signed, signed_decimal};

verus! {

/// A message from the world to the output.
#[derive(Debug)]
pub enum Message {
    NpcSay { npc_id: String, npc_name: String, text: String },
    System(String),
    Combat { attacker: String, target: String, damage: i32 },
    ItemPickup { entity: String, item: String, count: u32 },
    ItemUse { entity: String, item: String, effect: String },
    Movement { entity: String, from: (usize, usize), to: (usize, usize) },
    Error(String),
    Log(String),
}

/// The text that the output shows for a message.
pub open spec fn message_text(m: Message) -> Seq<char> {
    match m {
        Message::NpcSay { npc_name, text, .. } => "💬 "@ + npc_name@ + " 說：「"@ + text@ + "」"@,
        Message::System(text) => text@,
        Message::Combat { attacker, target, damage } => "⚔️  "@ + attacker@ + " 攻擊 "@ + target@
            + "，造成 "@ + signed_decimal(damage as int) + " 點傷害"@,
        Message::ItemPickup { entity, item, count } => "📦 "@ + entity@ + " 撿起了 "@ + item@ + " x"@
            + decimal(count as nat),
        Message::ItemUse { entity, item, effect } => "✨ "@ + entity@ + " 使用了 "@ + item@ + "，"@
            + effect@,
        Message::Movement { entity, to, .. } => "🚶 "@ + entity@ + " 移動到 ("@ + decimal(to.0 as nat)
            + ", "@ + decimal(to.1 as nat) + ")"@,
        Message::Error(text) => "❌ "@ + text@,
        Message::Log(text) => text@,
    }
}

impl Clone for Message {
    fn clone(&self) -> (r: Self)
        ensures
            r == *self,
    {
        match self {
            Message::NpcSay { npc_id, npc_name, text } => Message::NpcSay {
                npc_id: npc_id.clone(),
                npc_name: npc_name.clone(),
                text: text.clone(),
            },
            Message::System(t) => Message::System(t.clone()),
            Message::Combat { attacker, target, damage } => Message::Combat {
                attacker: attacker.clone(),
                target: target.clone(),
                damage: *damage,
            },
            Message::ItemPickup { entity, item, count } => Message::ItemPickup {
                entity: entity.clone(),
                item: item.clone(),
                count: *count,
            },
            Message::ItemUse { entity, item, effect } => Message::ItemUse {
                entity: entity.clone(),
                item: item.clone(),
                effect: effect.clone(),
            },
            Message::Movement { entity, from, to } => Message::Movement {
                entity: entity.clone(),
                from: (from.0, from.1),
                to: (to.0, to.1),
            },
            Message::Error(t) => Message::Error(t.clone()),
            Message::Log(t) => Message::Log(t.clone()),
        }
    }
}

impl Message {
    /// The text that the output shows for this message.
    pub fn to_display_text(&self) -> (r: String)
        ensures
            r@ == message_text(*self),
    {
        match self {
            Message::NpcSay { npc_name, text, .. } => {
                let mut s = String::from_str("💬 ");
                s.append(npc_name.as_str());
                s.append(" 說：「");
                s.append(text.as_str());
                s.append("」");
                s
            },
            Message::System(text) => text.clone(),
            Message::Combat { attacker, target, damage } => {
                let mut s = String::from_str("⚔️  ");
                s.append(attacker.as_str());
                s.append(" 攻擊 ");
                s.append(target.as_str());
                s.append("，造成 ");
                push_signed(&mut s, *damage as i64);
                s.append(" 點傷害");
                s
            },
            Message::ItemPickup { entity, item, count } => {
                let mut s = String::from_str("📦 ");
                s.append(entity.as_str());
                s.append(" 撿起了 ");
                s.append(item.as_str());
                s.append(" x");
                push_decimal(&mut s, *count as u64);
                s
            },
            Message::ItemUse { entity, item, effect } => {
                let mut s = String::from_str("✨ ");
                s.append(entity.as_str());
                s.append(" 使用了 ");
                s.append(item.as_str());
                s.append("，");
                s.append(effect.as_str());
                s
            },
            Message::Movement { entity, to, .. } => {
                let mut s = String::from_str("🚶 ");
                s.append(entity.as_str());
                s.append(" 移動到 (");
                push_decimal(&mut s, to.0 as u64);
                s.append(", ");
                push_decimal(&mut s, to.1 as u64);
                s.append(")");
                s
            },
            Message::Error(text) => crate::text::concat("❌ ", text.as_str()),
            Message::Log(text) => text.clone(),
        }
    }

    /// Whether the message belongs to the log rather than the main output.
    pub fn is_log(&self) -> (r: bool)
        ensures
            r == (*self is Log || *self is Movement),
    {
        match self {
            Message::Log(_) | Message::Movement { .. } => true,
            _ => false,
        }
    }
}

} // verus!
