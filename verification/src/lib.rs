//! The logic of a conversation history browser: reading transcripts, grouping
//! conversations by project, the state of the terminal dashboard, and pruning.

pub mod text;
pub mod time;
pub mod paths;
pub mod path_laws;
pub mod order;
pub mod numbers;
pub mod history;
pub mod error;
pub mod conversation_index;
pub mod providers;
pub mod prune;
pub mod prune_laws;
pub mod tui;
