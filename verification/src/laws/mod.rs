//! What holds across the functions of the library.
pub mod checkpoints;
pub mod commands;
pub mod completion;
pub mod contexts;
pub mod hostcalls;
pub mod integration;
pub mod journal;
pub mod places;
pub mod processes;
pub mod programs;
pub mod rollover;
pub mod screens;
pub mod scripts;
pub mod selection;
pub mod streams;
pub mod tasks;
pub mod texts;
pub mod verdicts;
pub mod workers;
