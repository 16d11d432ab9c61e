//! Events that threads hand to the world, and their recordable form.
use vstd::prelude::*;
use crossterm::event::KeyEvent;
use crate::npc_action::NpcAction;

verus! {

#[verifier::external_type_specification]
#[verifier::external_body]
pub struct ExKeyEvent(KeyEvent);

/// `KeyEvent`'s `clone`, which crossterm derives together with `Copy`: the
/// copy is equal to the value copied.
pub assume_specification[ <KeyEvent as Clone>::clone ](k: &KeyEvent) -> (r: KeyEvent)
    ensures
        r == *k,
;

/// Input from the player.
#[derive(Clone, Debug)]
pub enum InputEvent {
    /// A key press.
    KeyPress(KeyEvent),
    /// A command line.
    Command(String),
}

/// What a thread tells the world.
#[derive(Clone, Debug)]
pub enum GameEvent {
    /// What an NPC means to do.
    NpcActions { npc_id: String, actions: Vec<NpcAction> },
    /// Game time has passed.
    TimerTick { elapsed_secs: u64 },
    /// The player gave input.
    Input(InputEvent),
}

/// The form of an event that is saved and replayed; key presses are not
/// kept.
#[derive(Clone, Debug)]
pub enum SerializableGameEvent {
    NpcActions { npc_id: String, actions: Vec<NpcAction> },
    TimerTick { elapsed_secs: u64 },
    Command(String),
}

/// `r` is the recordable form of `e`: the same NPC actions, time tick or
/// command; nothing for a key press.
pub open spec fn records(e: GameEvent, r: Option<SerializableGameEvent>) -> bool {
    match e {
        GameEvent::NpcActions { npc_id, actions } => r matches Some(
            SerializableGameEvent::NpcActions { npc_id: id, actions: acts },
        ) && id@ == npc_id@ && acts@ == actions@,
        GameEvent::TimerTick { elapsed_secs } => r == Some(
            SerializableGameEvent::TimerTick { elapsed_secs },
        ),
        GameEvent::Input(InputEvent::Command(cmd)) => r matches Some(SerializableGameEvent::Command(c))
            && c@ == cmd@,
        GameEvent::Input(InputEvent::KeyPress(_)) => r is None,
    }
}

fn clone_actions(v: &Vec<NpcAction>) -> (r: Vec<NpcAction>)
    ensures
        r@ == v@,
{
    let mut r: Vec<NpcAction> = Vec::new();
    let mut i: usize = 0;
    while i < v.len()
        invariant
            i <= v@.len(),
            r@ == v@.take(i as int),
        decreases v@.len() - i,
    {
        r.push(v[i].clone());
        proof {
            assert(v@.take(i + 1) =~= v@.take(i as int).push(v@[i as int]));
        }
        i = i + 1;
    }
    proof {
        assert(v@.take(v@.len() as int) =~= v@);
    }
    r
}

impl GameEvent {
    /// The recordable form of the event, if it has one.
    pub fn to_serializable(&self) -> (r: Option<SerializableGameEvent>)
        ensures
            records(*self, r),
    {
        match self {
            GameEvent::NpcActions { npc_id, actions } => Some(
                SerializableGameEvent::NpcActions { npc_id: npc_id.clone(), actions: clone_actions(actions) },
            ),
            GameEvent::TimerTick { elapsed_secs } => Some(
                SerializableGameEvent::TimerTick { elapsed_secs: *elapsed_secs },
            ),
            GameEvent::Input(InputEvent::Command(cmd)) => Some(SerializableGameEvent::Command(cmd.clone())),
            GameEvent::Input(InputEvent::KeyPress(_)) => None,
        }
    }
}

} // verus!
