//! lede generates a git commit message from staged changes.
//!
//! The pipeline: `cli` holds what the command line asked for and `app` decides
//! every step of the run. `git` reads the staged change, `loading` brings the
//! configuration and the system prompt (writing defaults on first run),
//! `config` says what a configuration is, `auth` resolves what the request
//! carries as credentials, `api` frames a chat-completions call, and `message`
//! holds the reply to the 50/72 rule.
//!
//! The library does no input or output. A step names one thing to find out,
//! the program around the library does it and hands the answer back. What
//! holds of every run, load, message and staged change is stated and proved in
//! the modules whose names end in `_laws`.

pub mod api;
pub mod api_laws;
pub mod app;
pub mod app_laws;
pub mod auth;
pub mod auth_laws;
pub mod chars;
pub mod cli;
pub mod config;
pub mod config_laws;
pub mod git;
pub mod git_laws;
pub mod loading;
pub mod message;
pub mod message_laws;
pub mod paths;
pub mod process;
pub mod reply_laws;
pub mod text;
pub mod text_laws;
pub mod text_lemmas;
pub mod view_laws;
pub mod wrapping_laws;
