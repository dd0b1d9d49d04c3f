use vstd::prelude::*;

pub mod model;
pub mod text;
pub mod clock;
pub mod textmap;
pub mod inventory;
pub mod grid;
pub mod map;
pub mod content;
pub mod command;
pub mod farm;
pub mod simulation;
pub mod validation;
pub mod execution;
pub mod pathfinding;
pub mod campaign;
pub mod dispatch;
pub mod setup;
pub mod environment;
pub mod scheduling;
pub mod work;
pub mod census;
pub mod fleet;
pub mod editor;
pub mod robots;
pub mod npc;
pub mod actions;
