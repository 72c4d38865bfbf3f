use vstd::prelude::*;

verus! {

/// Operator intent, sent from the UI loop to the task scheduler.
///
/// A command is immutable once constructed and is consumed exactly once: it
/// moves from the UI loop into the channel, and from the channel into the
/// scheduler, which destructures it.
#[derive(Debug, PartialEq, Eq)]
pub enum Command {
    /// Start one fixed-duration job carrying a human-readable label.
    StartNamedWork { label: String, duration_secs: u64 },
    /// Start the infinite polling job.
    StartLoopingWork,
    /// Stop the scheduler from consuming further commands.
    Shutdown,
}

/// The mathematical shape of a `Command`: the label as a character sequence.
#[verifier::ext_equal]
pub enum CommandView {
    StartNamedWork { label: Seq<char>, duration_secs: u64 },
    StartLoopingWork,
    Shutdown,
}

impl View for Command {
    type V = CommandView;

    open spec fn view(&self) -> CommandView {
        match self {
            Command::StartNamedWork { label, duration_secs } => CommandView::StartNamedWork {
                label: label@,
                duration_secs: *duration_secs,
            },
            Command::StartLoopingWork => CommandView::StartLoopingWork,
            Command::Shutdown => CommandView::Shutdown,
        }
    }
}

/// The views of a sequence of commands, in order.
pub open spec fn command_views(cmds: Seq<Command>) -> Seq<CommandView> {
    cmds.map_values(|c: Command| c@)
}

} // verus!
