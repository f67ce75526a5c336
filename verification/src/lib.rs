//! Verified core of a multiplayer text-adventure narrator for Discord.
use vstd::prelude::*;

pub mod text;
pub mod options;
pub mod dice;
pub mod state;
pub mod prompts;
pub mod turn;
pub mod json;
pub mod discord;
pub mod commands;
pub mod characters;
pub mod deploy;
pub mod catchup;
pub mod replies;
pub mod gemini;
pub mod mistral;
pub mod slash;
pub mod store;
pub mod image;
mod order;

verus! {
} // verus!
