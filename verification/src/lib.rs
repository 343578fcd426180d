//! Command-suggestion engine: ranked completions for a partially typed shell
//! command, combined from several weighted prediction strategies, together
//! with the interactive session state that debounces keystrokes and merges
//! or drops the late results of slow strategies.
//!
//! Scores and weights are fixed-point numbers in thousandths; arithmetic
//! on them rounds down and saturates. Time is a count of milliseconds that
//! the caller reads from its clock. Nothing here blocks, prints or touches
//! the disk: strategies that need a store or an external program implement
//! [`suggestion::SuggestModel`] outside this library.
//!
//! The modules, leaves first:
//! - [`text`]: characters, trimming, lines;
//! - [`suggestion`]: suggestions, scores, the strategy contract;
//! - [`rank`]: stable ranking by score;
//! - [`ensemble`]: weighted aggregation over strategies, with [`laws`]
//!   stating what the aggregated ranking holds for each text;
//! - [`fuzzy`], [`alias`], [`stored`], [`embedding`], [`llm`]: the logic of
//!   the single strategies;
//! - [`history`]: history lines and the records commands are stored under;
//! - [`session`]: the interactive session state and its transitions;
//! - [`keys`], [`display`]: key and mouse handling, and what is shown.

pub mod alias;
pub mod display;
pub mod embedding;
pub mod ensemble;
pub mod fuzzy;
pub mod handle;
pub mod history;
pub mod keys;
pub mod laws;
pub mod llm;
pub mod rank;
pub mod session;
pub mod stored;
pub mod suggestion;
pub mod text;
