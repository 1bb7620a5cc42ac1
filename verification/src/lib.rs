//! Core logic of an experiment tracker for machine-learning runs: run and
//! metric models, log-file parsing, exports to CSV, Markdown and LaTeX,
//! configuration checks, platform paths and the keyboard-driven UI state.
pub mod text;
pub mod time;
pub mod models;
pub mod export;
pub mod gpu;
pub mod clock;
pub mod control;
pub mod display;
pub mod docker;
pub mod order;
pub mod paths;
pub mod config;
pub mod platform;
pub mod watcher;
pub mod numbers;
pub mod parser;
