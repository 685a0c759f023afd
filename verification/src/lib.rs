//! Verified core of a Quake III: Arena log file analyser.
//!
//! The crate turns a textual game-server log into per-match statistics in
//! three verified stages:
//!
//! - tokenizing and decoding of single log lines into structured events;
//! - a match state machine that collects completed games out of the event
//!   stream;
//! - report builders that fold one game, or a whole log, into per-player
//!   and per-cause kill statistics.

pub mod error;
pub mod game;
pub mod parser;
pub mod report;
pub mod text;
