//! The argument surface: what the user asked for, once the command line has
//! been read.

use std::path::PathBuf;
use vstd::prelude::*;

use crate::chars;

verus! {

/// Generate a git commit message from the staged diff.
#[derive(Debug)]
pub struct Cli {
    pub command: Command,
}

#[derive(Debug)]
pub enum Command {
    /// Write the default configuration and system prompt, keeping any
    /// existing files, and check whether authentication resolves.
    Init,
    /// Generate a commit message and print it to stdout. Commit with
    /// `git commit -m "$(lede generate)"`.
    Generate {
        /// Extra context for the model, e.g. "refactor only".
        hint: Option<String>,
        /// Model to request, overriding the configuration.
        model: Option<String>,
        /// OpenAI-compatible API base URL, overriding the configuration.
        base_url: Option<String>,
        /// Read the system prompt from this file instead of the configured one.
        system_prompt: Option<PathBuf>,
    },
}

/// What a [`Command`] holds.
pub enum CommandView {
    Init,
    Generate {
        hint: Option<Seq<char>>,
        model: Option<Seq<char>>,
        base_url: Option<Seq<char>>,
        system_prompt: Option<PathBuf>,
    },
}

impl View for Command {
    type V = CommandView;

    open spec fn view(&self) -> CommandView {
        match self {
            Command::Init => CommandView::Init,
            Command::Generate { hint, model, base_url, system_prompt } => CommandView::Generate {
                hint: chars::optional(*hint),
                model: chars::optional(*model),
                base_url: chars::optional(*base_url),
                system_prompt: *system_prompt,
            },
        }
    }
}

} // verus!
