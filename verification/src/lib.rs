//! The logic of `wf`, a terminal dashboard for a directory full of git
//! repositories.

pub mod backup;
pub mod clock;
pub mod command;
pub mod dashboard;
pub mod git;
pub mod headless;
pub mod hindsight;
pub mod json;
pub mod laws;
pub mod layout;
pub mod metrics;
pub mod models;
pub mod order;
pub mod screen;
pub mod secrets;
pub mod seqs;
pub mod service;
pub mod text;
pub mod theme;
pub mod watch;
