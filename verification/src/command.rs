//! The command pattern for input handling: commands pile up in a queue and
//! are executed in arrival order when the turn commits; a history stack
//! supports undo.

use vstd::prelude::*;

use crate::look_n_feel::Dir;

verus! {

/// A player-level command, recorded before it is executed.
#[derive(PartialEq, Eq, Structural, Clone, Copy, Debug)]
pub enum Command {
    Grab,
    Move { dir: Dir },
    Select,
    Undo,
    Wait,
}

/// Command storage for lazy processing: first in, first out.
pub struct CommandQueue {
    pub queue: Vec<Command>,
}

impl CommandQueue {
    /// An empty queue.
    pub fn new() -> (r: Self)
        ensures
            r.queue@.len() == 0,
    {
        CommandQueue { queue: Vec::new() }
    }

    /// Append a command at the back.
    pub fn push(&mut self, cmd: Command)
        ensures
            final(self).queue@ == old(self).queue@.push(cmd),
    {
        self.queue.push(cmd);
    }

    /// Take the most recently queued command back out.
    pub fn rm_last(&mut self) -> (r: Option<Command>)
        ensures
            old(self).queue@.len() == 0 ==> r is None && final(self).queue@ == old(self).queue@,
            old(self).queue@.len() > 0 ==> r == Some(old(self).queue@.last()) && final(self).queue@ == old(self).queue@.drop_last(),
    {
        if self.queue.len() > 0 {
            let cmd = self.queue.pop();
            match cmd {
                Some(c) => Some(c),
                None => None,
            }
        } else {
            None
        }
    }

    /// Dequeue the oldest command, preserving arrival order.
    pub fn pop(&mut self) -> (r: Option<Command>)
        ensures
            old(self).queue@.len() == 0 ==> r is None && final(self).queue@ == old(self).queue@,
            old(self).queue@.len() > 0 ==> r == Some(old(self).queue@[0]) && final(self).queue@
                == old(self).queue@.skip(1),
    {
        if self.queue.len() > 0 {
            let cmd = self.queue.remove(0);
            proof {
                assert(final(self).queue@ =~= old(self).queue@.skip(1));
            }
            Some(cmd)
        } else {
            None
        }
    }

    /// Drop every queued command.
    pub fn clear(&mut self)
        ensures
            final(self).queue@.len() == 0,
    {
        self.queue.clear();
    }

    /// A snapshot of the queued commands, in arrival order.
    pub fn iter(&self) -> (r: CommandQueueIter)
        ensures
            r.items@ == self.queue@,
    {
        CommandQueueIter { items: self.queue.clone() }
    }
}

/// A walkable snapshot of a command queue.
pub struct CommandQueueIter {
    pub items: Vec<Command>,
}

/// Storage for undo-ability of commands: last in, first out.
pub struct CommandHistory {
    pub history: Vec<Command>,
}

impl CommandHistory {
    /// An empty history.
    pub fn new() -> (r: Self)
        ensures
            r.history@.len() == 0,
    {
        CommandHistory { history: Vec::new() }
    }

    /// Record a command.
    pub fn push(&mut self, cmd: Command)
        ensures
            final(self).history@ == old(self).history@.push(cmd),
    {
        self.history.push(cmd);
    }

    /// Take the most recent command back out.
    pub fn pop(&mut self) -> (r: Option<Command>)
        ensures
            old(self).history@.len() == 0 ==> r is None && final(self).history@ == old(
                self,
            ).history@,
            old(self).history@.len() > 0 ==> r == Some(old(self).history@.last()) && final(self).history@ == old(self).history@.drop_last(),
    {
        self.history.pop()
    }
}

} // verus!
