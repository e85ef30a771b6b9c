//! Verified core of a tool that turns source folders and assignment sheets
//! into formatted documents with rendered terminal screenshots.
//!
//! - `text`: character-level string operations with their meaning.
//! - `ansi`: splitting terminal output into styled runs.
//! - `term`: the window, prompt and lines of a terminal screenshot.
//! - `runner`: language configurations and the commands that run a file.
//! - `natural`: natural ordering of names.
//! - `pack`: which files of a folder are packed, their order, and the text
//!   of each screenshot.
//! - `document`: the layout of the packed document.
//! - `prompts`: the prompts sent to the language model.
//! - `ai`: provider settings and the request/reply exchange with a model.
//! - `web`: the decisions of the HTTP API.
pub mod text;
pub mod ansi;
pub mod term;
pub mod runner;
pub mod natural;
pub mod pack;
pub mod prompts;
pub mod ai;
pub mod document;
pub mod web;
pub mod word;
