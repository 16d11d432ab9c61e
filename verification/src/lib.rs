pub mod text;
pub mod command_handler;
pub mod help;
pub mod input;
pub mod command_processor;
pub mod core_output;
pub mod event_scheduler;
pub mod quest;
pub mod random;
pub mod clock;
pub mod item;
pub mod time_updatable;
pub mod item_registry;
pub mod trade;
pub mod message;
pub mod world;
pub mod event;
pub mod npc_view;
pub mod npc_action;
pub mod npc_ai;
pub mod observable;
pub mod output;
pub mod ui;
pub mod map;
pub mod game_event;
pub mod settings;
pub mod event_executor;
pub mod event_loader;
pub mod person;
pub mod npc_manager;
pub mod command_interact;
pub mod combat;
pub mod minimap;
pub mod npc_rules;
pub mod inventory;
pub mod command_args;
pub mod panel;
pub mod world_panel;
pub mod trade_view;
pub mod command_executor;
