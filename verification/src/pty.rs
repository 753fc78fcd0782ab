//! The decision logic of the pseudo-terminal supervisor.
//!
//! Spawning, reading and resizing pseudo-terminals is process and file
//! descriptor work that stays with the caller; what the library decides is
//! the command line an agent launch uses and the default window size, and
//! it owns the payloads of the two terminal event streams.

use vstd::prelude::*;

use crate::text::copy_str;

verus! {

/// Default window height for an agent launch.
pub const DEFAULT_ROWS: u16 = 40;

/// Default window width for an agent launch.
pub const DEFAULT_COLS: u16 = 120;

/// Payload of one chunk of terminal output.
#[derive(Debug, Clone)]
pub struct PtyOutput {
    pub agent_id: String,
    pub data: String,
}

/// Payload of the final event of a terminal's reader.
#[derive(Debug, Clone)]
pub struct PtyExit {
    pub agent_id: String,
    pub exit_code: Option<i32>,
}

/// The arguments an agent launch passes to the agent executable: an empty
/// task launches interactively with no arguments; a task launches
/// non-interactively, skipping permission prompts, with the task as the
/// prompt.
pub fn build_agent_args(task: &str) -> (r: Vec<String>)
    ensures
        task@.len() == 0 ==> r@.len() == 0,
        task@.len() > 0 ==> r@.len() == 3 && r@[0]@ == "--dangerously-skip-permissions"@
            && r@[1]@ == "-p"@ && r@[2]@ == task@,
{
    let mut args: Vec<String> = Vec::new();
    if !task.is_empty() {
        args.push(copy_str("--dangerously-skip-permissions"));
        args.push(copy_str("-p"));
        args.push(copy_str(task));
    }
    args
}

} // verus!
