//! Verified core of a Steam library manager: non-Steam shortcut planning,
//! artwork file naming, game-folder detection and the small text rules
//! they share.

pub mod autoadd;
pub mod config;
pub mod griddb;
pub mod scanner;
pub mod steam;
pub mod text;
pub mod ui;
