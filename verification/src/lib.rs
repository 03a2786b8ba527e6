//! A verified core for an interactive terminal session: a line editor, a
//! bounded command history with search and statistics, a command pipeline
//! that dispatches builtins and external processes, a directory listing
//! engine, and an animated background effect engine.
pub mod clock;
pub mod effects;
pub mod entities;
pub mod exit_commands;
pub mod exit_display;
pub mod history;
pub mod history_commands;
pub mod input;
pub mod ls_commands;
pub mod ls_display;
pub mod ls_example;
pub mod monitor;
pub mod order;
pub mod pipeline;
pub mod repositories;
pub mod services;
pub mod text;
pub mod texts;
pub mod use_cases;
