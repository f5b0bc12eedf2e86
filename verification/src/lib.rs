//! The logic of a local coding assistant: conversations with a model, the
//! tools it may call, the interactive prompt, and the local server.
use vstd::prelude::*;

pub mod api;
pub mod cli;
pub mod command_laws;
pub mod commit;
pub mod config;
pub mod engine;
pub mod flow_laws;
pub mod history;
pub mod json;
pub mod keys;
pub mod layout;
pub mod layout_laws;
pub mod line_laws;
pub mod markdown;
pub mod net;
pub mod net_laws;
pub mod number;
pub mod order;
pub mod prompt_input;
pub mod repl;
pub mod repl_commands;
pub mod repl_completion;
pub mod repl_turn;
pub mod runtime;
pub mod screen;
pub mod server;
pub mod server_flow;
pub mod show_laws;
pub mod slash;
pub mod state_laws;
pub mod terminal_style;
pub mod text;
pub mod text_laws;
pub mod tools;
pub mod types;

verus! {

} // verus!
