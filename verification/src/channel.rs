//! A one-slot mailbox through which another thread asks the supervisor to
//! stop.  The slot holds at most one pending command; storing a new one
//! replaces it, and taking it empties the slot.

use vstd::prelude::*;

verus! {

/// A request to the supervisor.
#[derive(Clone, Copy, PartialEq, Eq, Structural, Debug)]
pub enum SupervisorCommand {
    /// Stop supervising and shut down.
    Leave,
}

/// The one-slot command mailbox.
pub struct CommandChannel {
    /// The pending command, if any.
    pub command: Option<SupervisorCommand>,
}

impl CommandChannel {
    /// An empty channel: no command is pending.
    pub fn new() -> (r: CommandChannel)
        ensures
            r.command.is_none(),
    {
        CommandChannel { command: None }
    }

    /// Stores a command, replacing any pending one.
    pub fn put_command(&mut self, cmd: SupervisorCommand)
        ensures
            final(self).command == Some(cmd),
    {
        self.command = Some(cmd);
    }

    /// Takes the pending command, leaving the channel empty.
    pub fn get_command(&mut self) -> (r: Option<SupervisorCommand>)
        ensures
            r == old(self).command,
            final(self).command.is_none(),
    {
        let r = self.command;
        self.command = None;
        r
    }
}

} // verus!
