pub mod battle;
pub mod dictionary;
pub mod text;
pub mod futhark;
pub mod keyboard;
pub mod random;
pub mod rune_slots;
pub mod spellbook;
pub mod battle_states;
pub mod tutorial;
pub mod loading;
pub mod combat;
pub mod ledger;
pub mod row_grading;
pub mod spell_selection;
pub mod effects;
pub mod battle_flow;
pub mod reacting;
