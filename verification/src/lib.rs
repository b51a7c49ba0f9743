//! Terminal markdown viewer engine: word-wrap layout, screen/character
//! coordinate mapping, incremental search, and the interaction state
//! machine, all with verified contracts.

pub mod cli;
pub mod label;
pub mod mapper;
pub mod picker;
pub mod queue;
pub mod search;
pub mod state;
pub mod style;
pub mod table;
pub mod textutil;
pub mod width;
pub mod wrap;
