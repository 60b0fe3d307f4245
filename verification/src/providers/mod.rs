//! The tools that conversations are held with.

use crate::text::texts;
use vstd::prelude::*;

pub mod claude;
pub mod workspace;
pub mod cursor_agent;
pub mod transcript_laws;
pub mod provider_laws;

verus! {

/// A command to run.
#[derive(Debug)]
pub struct CommandSpec {
    pub program: String,
    pub args: Vec<String>,
    pub current_dir: String,
}

/// What a `CommandSpec` says.
#[verifier::ext_equal]
pub struct CommandSpecView {
    pub program: Seq<char>,
    pub args: Seq<Seq<char>>,
    pub current_dir: Seq<char>,
}

impl View for CommandSpec {
    type V = CommandSpecView;

    open spec fn view(&self) -> CommandSpecView {
        CommandSpecView {
            program: self.program@,
            args: texts(self.args@),
            current_dir: self.current_dir@,
        }
    }
}

} // verus!
