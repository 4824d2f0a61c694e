//! Core rules of a small survival-game prototype: a fixed-capacity slotted
//! inventory, the give/remove/drop/select operations on it, and a crafting
//! book whose recipes are matched against and consumed from the inventory.
//!
//! Rendering, input polling, and world-entity bookkeeping are left to the
//! surrounding application; this crate holds only the verified rules.

pub mod crafting;
pub mod inventory;
pub mod items;
