//! A verified engine for turn-based pet battles.

pub mod action;
pub mod attack;
pub mod battle;
pub mod camp;
pub mod chronicle;
pub mod course;
pub mod decide;
pub mod dedication;
pub mod drafts;
pub mod effects;
pub mod elements;
pub mod field;
pub mod history;
pub mod laws;
pub mod llm;
pub mod log;
pub mod named;
pub mod number;
pub mod outcomes;
pub mod pet;
pub mod pet_battle_patch;
pub mod prompt;
pub mod random;
pub mod reading;
pub mod records;
pub mod replay;
pub mod report;
pub mod rounds;
pub mod single;
pub mod stats;
pub mod status;
pub mod tables;
pub mod team;
pub mod text;
pub mod weather;
